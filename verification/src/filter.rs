//! Event filters: every criterion that is set must hold of an event.

use vstd::prelude::*;
use crate::event::{Ipv4Addr, NetworkEvent, Protocol};
use crate::text::{contains_seq, str_contains};

verus! {

/// A conjunction of optional criteria on events.
#[derive(Clone, Debug)]
pub struct Filter {
    pub protocol: Option<Protocol>,
    pub src_ip: Option<Ipv4Addr>,
    pub dst_ip: Option<Ipv4Addr>,
    pub src_port: Option<u16>,
    pub dst_port: Option<u16>,
    pub pid: Option<u32>,
    pub process_name: Option<String>,
}

impl Default for Filter {
    fn default() -> (f: Filter)
        ensures
            f.spec_is_empty(),
    {
        Filter {
            protocol: None,
            src_ip: None,
            dst_ip: None,
            src_port: None,
            dst_port: None,
            pid: None,
            process_name: None,
        }
    }
}

impl Filter {
    /// Whether an event satisfies every criterion that is set. A process id or
    /// process name criterion fails on an event with no process attached; a
    /// name criterion holds when the process name contains it.
    pub open spec fn spec_matches(self, e: NetworkEvent) -> bool {
        &&& (self.protocol matches Some(p) ==> e.protocol == p)
        &&& (self.src_ip matches Some(ip) ==> e.src_ip == ip)
        &&& (self.dst_ip matches Some(ip) ==> e.dst_ip == ip)
        &&& (self.src_port matches Some(port) ==> e.src_port == port)
        &&& (self.dst_port matches Some(port) ==> e.dst_port == port)
        &&& (self.pid matches Some(pid) ==> (e.process matches Some(p) && p.pid == pid))
        &&& (self.process_name matches Some(name) ==> (e.process matches Some(p) && contains_seq(
            p.comm@,
            name@,
        )))
    }

    /// Whether no criterion is set.
    pub open spec fn spec_is_empty(self) -> bool {
        &&& self.protocol is None
        &&& self.src_ip is None
        &&& self.dst_ip is None
        &&& self.src_port is None
        &&& self.dst_port is None
        &&& self.pid is None
        &&& self.process_name is None
    }

    /// Whether `event` satisfies every criterion that is set.
    pub fn matches(&self, event: &NetworkEvent) -> (b: bool)
        ensures
            b == self.spec_matches(*event),
    {
        if let Some(p) = self.protocol {
            if event.protocol != p {
                return false;
            }
        }
        if let Some(ip) = self.src_ip {
            if event.src_ip != ip {
                return false;
            }
        }
        if let Some(ip) = self.dst_ip {
            if event.dst_ip != ip {
                return false;
            }
        }
        if let Some(port) = self.src_port {
            if event.src_port != port {
                return false;
            }
        }
        if let Some(port) = self.dst_port {
            if event.dst_port != port {
                return false;
            }
        }
        if let Some(pid) = self.pid {
            match &event.process {
                Some(p) => {
                    if p.pid != pid {
                        return false;
                    }
                },
                None => {
                    return false;
                },
            }
        }
        if let Some(name) = &self.process_name {
            match &event.process {
                Some(p) => {
                    if !str_contains(p.comm.as_str(), name.as_str()) {
                        return false;
                    }
                },
                None => {
                    return false;
                },
            }
        }
        true
    }

    /// Whether no criterion is set.
    pub fn is_empty(&self) -> (b: bool)
        ensures
            b == self.spec_is_empty(),
    {
        self.protocol.is_none() && self.src_ip.is_none() && self.dst_ip.is_none()
            && self.src_port.is_none() && self.dst_port.is_none() && self.pid.is_none()
            && self.process_name.is_none()
    }
}

/// A filter with no criterion lets every event through.
pub proof fn lemma_empty_filter_matches_all(f: Filter, e: NetworkEvent)
    requires
        f.spec_is_empty(),
    ensures
        f.spec_matches(e),
{
}

/// The filter with no criterion set.
pub open spec fn no_criteria() -> Filter {
    Filter {
        protocol: None,
        src_ip: None,
        dst_ip: None,
        src_port: None,
        dst_port: None,
        pid: None,
        process_name: None,
    }
}

/// A filter with a single criterion matches an event exactly when the event
/// has what the criterion names: its protocol, its source or destination
/// address, its source or destination port, or a process with that id or a
/// name containing the given text.
pub proof fn law_single_criterion_filters(
    e: NetworkEvent,
    proto: Protocol,
    ip: Ipv4Addr,
    port: u16,
    pid: u32,
    name: String,
)
    ensures
        (Filter { protocol: Some(proto), ..no_criteria() }).spec_matches(e) <==> e.protocol == proto,
        (Filter { src_ip: Some(ip), ..no_criteria() }).spec_matches(e) <==> e.src_ip == ip,
        (Filter { dst_ip: Some(ip), ..no_criteria() }).spec_matches(e) <==> e.dst_ip == ip,
        (Filter { src_port: Some(port), ..no_criteria() }).spec_matches(e) <==> e.src_port == port,
        (Filter { dst_port: Some(port), ..no_criteria() }).spec_matches(e) <==> e.dst_port == port,
        (Filter { pid: Some(pid), ..no_criteria() }).spec_matches(e) <==> (e.process is Some
            && e.process->0.pid == pid),
        (Filter { process_name: Some(name), ..no_criteria() }).spec_matches(e) <==> (e.process is Some
            && contains_seq(e.process->0.comm@, name@)),
{
}

/// Matching is a conjunction: an event matches a filter exactly when it
/// matches, for each criterion the filter sets, the filter that sets only
/// that criterion.
pub proof fn law_filter_is_conjunction(f: Filter, e: NetworkEvent)
    ensures
        f.spec_matches(e) <==> {
            &&& (Filter { protocol: f.protocol, ..no_criteria() }).spec_matches(e)
            &&& (Filter { src_ip: f.src_ip, ..no_criteria() }).spec_matches(e)
            &&& (Filter { dst_ip: f.dst_ip, ..no_criteria() }).spec_matches(e)
            &&& (Filter { src_port: f.src_port, ..no_criteria() }).spec_matches(e)
            &&& (Filter { dst_port: f.dst_port, ..no_criteria() }).spec_matches(e)
            &&& (Filter { pid: f.pid, ..no_criteria() }).spec_matches(e)
            &&& (Filter { process_name: f.process_name, ..no_criteria() }).spec_matches(e)
        },
{
}

} // verus!
