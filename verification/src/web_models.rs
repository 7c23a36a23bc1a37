//! The records that the web front end shows: packets, flows, statistics,
//! interfaces, capture state, traffic samples and protocol counts.

use vstd::prelude::*;
use vstd::string::StringExecFns;
use crate::text::{decimal, digit, digit_char, push_char, push_decimal};

verus! {

/// A packet as the web front end lists it.
#[derive(Clone, Debug, PartialEq)]
pub struct PacketEvent {
    pub src_ip: String,
    pub dst_ip: String,
    pub src_port: u16,
    pub dst_port: u16,
    pub protocol: String,
    pub pkt_len: u32,
    pub timestamp: String,
    pub process_name: String,
    pub pid: u32,
}

/// A flow as the web front end lists it.
#[derive(Clone, Debug, PartialEq)]
pub struct FlowData {
    pub src_ip: String,
    pub dst_ip: String,
    pub src_port: u16,
    pub dst_port: u16,
    pub protocol: String,
    pub packets: u64,
    pub bytes: u64,
}

/// Totals over all flows, and where the capture runs.
#[derive(Clone, Debug, PartialEq)]
pub struct SystemStats {
    pub total_pkts: u64,
    pub total_bytes: u64,
    pub active_flows: u32,
    pub interface: String,
    pub kernel: String,
}

impl Default for SystemStats {
    fn default() -> (s: SystemStats)
        ensures
            s.total_pkts == 0,
            s.total_bytes == 0,
            s.active_flows == 0,
            s.interface@.len() == 0,
            s.kernel@.len() == 0,
    {
        SystemStats {
            total_pkts: 0,
            total_bytes: 0,
            active_flows: 0,
            interface: String::new(),
            kernel: String::new(),
        }
    }
}

/// A network interface.
#[derive(Clone, Debug, PartialEq)]
pub struct InterfaceInfo {
    pub name: String,
    pub speed: String,
    pub active: bool,
}

/// The capture as the client tracks it.
#[derive(Clone, Debug, PartialEq)]
pub struct CaptureState {
    pub interface: Option<String>,
    pub is_live: bool,
    pub uptime_secs: u64,
    pub total_events: u64,
    pub dropped: u64,
}

impl Default for CaptureState {
    /// Interface `eth0`, not live, nothing counted.
    fn default() -> (c: CaptureState)
        ensures
            c.interface matches Some(i) && i@ == "eth0"@,
            !c.is_live,
            c.uptime_secs == 0,
            c.total_events == 0,
            c.dropped == 0,
    {
        CaptureState {
            interface: Some(String::from_str("eth0")),
            is_live: false,
            uptime_secs: 0,
            total_events: 0,
            dropped: 0,
        }
    }
}

/// `n` with at least two digits (`{:02}`).
pub open spec fn two_digits(n: nat) -> Seq<char> {
    if n < 10 {
        seq!['0', digit_char(n)]
    } else {
        decimal(n)
    }
}

fn push_two_digits(s: &mut String, n: u64)
    ensures
        final(s)@ == old(s)@ + two_digits(n as nat),
{
    if n < 10 {
        push_char(s, '0');
        push_char(s, digit(n));
        assert(final(s)@ =~= old(s)@ + two_digits(n as nat));
    } else {
        push_decimal(s, n);
    }
}

/// `HH:MM:SS` of a number of seconds; the hours grow past two digits.
pub open spec fn clock_text(secs: nat) -> Seq<char> {
    two_digits(secs / 3600) + seq![':'] + two_digits((secs % 3600) / 60) + seq![':'] + two_digits(
        secs % 60,
    )
}

impl CaptureState {
    /// The uptime as `HH:MM:SS`.
    pub fn formatted_uptime(&self) -> (s: String)
        ensures
            s@ == clock_text(self.uptime_secs as nat),
    {
        let hrs = self.uptime_secs / 3600;
        let mins = (self.uptime_secs % 3600) / 60;
        let secs = self.uptime_secs % 60;
        let mut s = String::new();
        push_two_digits(&mut s, hrs);
        push_char(&mut s, ':');
        push_two_digits(&mut s, mins);
        push_char(&mut s, ':');
        push_two_digits(&mut s, secs);
        assert(s@ =~= clock_text(self.uptime_secs as nat));
        s
    }
}

/// Traffic in one sampling window, for the charts.
#[derive(Clone, Debug, PartialEq)]
pub struct TrafficSample {
    pub bytes_in_window: u64,
    pub sent_bytes_in_window: u64,
    pub recv_bytes_in_window: u64,
    pub packets_in_window: u64,
    pub active_flows: u32,
}

impl Default for TrafficSample {
    fn default() -> (t: TrafficSample)
        ensures
            t == (TrafficSample {
                bytes_in_window: 0,
                sent_bytes_in_window: 0,
                recv_bytes_in_window: 0,
                packets_in_window: 0,
                active_flows: 0,
            }),
    {
        TrafficSample {
            bytes_in_window: 0,
            sent_bytes_in_window: 0,
            recv_bytes_in_window: 0,
            packets_in_window: 0,
            active_flows: 0,
        }
    }
}

/// A protocol's packet count, for the filter badges.
#[derive(Clone, Debug, PartialEq)]
pub struct ProtocolCount {
    pub label: String,
    pub count: u32,
    pub color_class: String,
}

} // verus!
