//! The server side of the web front end's own API: captured events, flows and
//! totals in the shape the web front end lists them.

use vstd::prelude::*;
use vstd::string::StringExecFns;
use crate::event::{NetworkEvent, Timestamp, dotted_quad, protocol_label};
use crate::flow::{FlowEntry, FlowKey};
use crate::text::{decimal, push_char, push_decimal, push_decimal_wide, push_str};
use crate::web_api::{operstate_active, operstate_active_text, speed_label, speed_text, signed_decimal, bytes_sum, flow_totals, no_process, packets_sum, process_id_of, process_name_of, sums_fit};
use crate::web_models::{FlowData, InterfaceInfo, PacketEvent, SystemStats};
use crate::web_dummy::sample_interfaces;

verus! {

/// The debug rendering of a wall-clock time on Unix systems, from its
/// `timespec`: `SystemTime { tv_sec: <secs>, tv_nsec: <nanos> }`, the seconds
/// negative before the epoch.
pub open spec fn system_time_debug_text(t: Timestamp) -> Seq<char> {
    "SystemTime { tv_sec: "@ + signed_decimal(t.unix_secs()) + ", tv_nsec: "@ + signed_decimal(
        t.unix_nanos(),
    ) + " }"@
}

fn push_signed_wide(s: &mut String, negative: bool, magnitude: u128)
    ensures
        final(s)@ == old(s)@ + signed_decimal(
            if negative {
                -(magnitude as int)
            } else {
                magnitude as int
            },
        ),
{
    if negative && magnitude > 0 {
        push_char(s, '-');
    }
    push_decimal_wide(s, magnitude);
    proof {
        if negative && magnitude > 0 {
            assert(final(s)@ =~= old(s)@ + signed_decimal(-(magnitude as int)));
        }
    }
}

/// The debug rendering of a wall-clock time.
pub fn system_time_debug(t: Timestamp) -> (r: String)
    ensures
        r@ == system_time_debug_text(t),
{
    let mut r = String::new();
    push_str(&mut r, "SystemTime { tv_sec: ");
    if !t.before_epoch {
        push_signed_wide(&mut r, false, t.secs as u128);
    } else if t.nanos == 0 {
        push_signed_wide(&mut r, true, t.secs as u128);
    } else {
        push_signed_wide(&mut r, true, t.secs as u128 + 1);
    }
    push_str(&mut r, ", tv_nsec: ");
    if t.before_epoch && t.nanos > 0 {
        if t.nanos <= 1_000_000_000 {
            push_signed_wide(&mut r, false, (1_000_000_000 - t.nanos) as u128);
        } else {
            push_signed_wide(&mut r, true, (t.nanos - 1_000_000_000) as u128);
        }
    } else {
        push_signed_wide(&mut r, false, t.nanos as u128);
    }
    push_str(&mut r, " }");
    r
}

/// The listed form of a captured event: addresses in dotted-quad form, the
/// protocol's name, the debug rendering of its time, and its process (the
/// placeholder and id zero where none is attached).
pub fn packet_event_of(e: &NetworkEvent) -> (r: PacketEvent)
    ensures
        r.src_ip@ == dotted_quad(e.src_ip.0),
        r.dst_ip@ == dotted_quad(e.dst_ip.0),
        r.src_port == e.src_port,
        r.dst_port == e.dst_port,
        r.protocol@ == protocol_label(e.protocol),
        r.pkt_len == e.pkt_len,
        r.timestamp@ == system_time_debug_text(e.timestamp),
        r.process_name@ == process_name_of(*e),
        r.pid == process_id_of(*e),
{
    let (process_name, pid) = match &e.process {
        Some(p) => (p.comm.clone(), p.pid),
        None => {
            let mut n = String::new();
            push_char(&mut n, '—');
            assert(n@ =~= no_process());
            (n, 0)
        },
    };
    PacketEvent {
        src_ip: e.src_ip.to_string(),
        dst_ip: e.dst_ip.to_string(),
        src_port: e.src_port,
        dst_port: e.dst_port,
        protocol: e.protocol.to_string(),
        pkt_len: e.pkt_len,
        timestamp: system_time_debug(e.timestamp),
        process_name,
        pid,
    }
}

/// The listed form of a flow.
pub fn flow_data_of(entry: &FlowEntry) -> (r: FlowData)
    ensures
        r.src_ip@ == dotted_quad(entry.key.src_ip.0),
        r.dst_ip@ == dotted_quad(entry.key.dst_ip.0),
        r.src_port == entry.key.src_port,
        r.dst_port == entry.key.dst_port,
        r.protocol@ == protocol_label(entry.key.protocol),
        r.packets == entry.packets,
        r.bytes == entry.bytes,
{
    FlowData {
        src_ip: entry.key.src_ip.to_string(),
        dst_ip: entry.key.dst_ip.to_string(),
        src_port: entry.key.src_port,
        dst_port: entry.key.dst_port,
        protocol: entry.key.protocol.to_string(),
        packets: entry.packets,
        bytes: entry.bytes,
    }
}

/// The totals record: sums over the listed flows, the number of flows as a
/// 32-bit count, the interface and the kernel description.
pub fn system_stats(
    flows: &Vec<(FlowKey, FlowEntry)>,
    flow_count: usize,
    interface: String,
    kernel: String,
) -> (r: SystemStats)
    requires
        sums_fit(flows@),
    ensures
        r.total_pkts == packets_sum(flows@),
        r.total_bytes == bytes_sum(flows@),
        r.active_flows == flow_count as u32,
        r.interface == interface,
        r.kernel == kernel,
{
    let (total_pkts, total_bytes) = match flow_totals(flows) {
        Some(t) => t,
        None => (0, 0),
    };
    SystemStats { total_pkts, total_bytes, active_flows: flow_count as u32, interface, kernel }
}

/// The interface list used when `/sys/class/net` cannot be read: name,
/// speed and whether the link is up.
pub open spec fn fallback_rows() -> Seq<(Seq<char>, Seq<char>, bool)> {
    seq![("eth0"@, "10 Gbps"@, true), ("wlan0"@, "866 Mbps"@, true), ("lo"@, no_process(), false)]
}

/// The interface list used when `/sys/class/net` cannot be read.
pub fn fallback_interfaces() -> (r: Vec<InterfaceInfo>)
    ensures
        r@.len() == 3,
        forall|i: int| 0 <= i < 3 ==> (#[trigger] r@[i].name@, r@[i].speed@, r@[i].active) == fallback_rows()[i],
{
    let mut dash = String::new();
    push_char(&mut dash, '—');
    assert(dash@ =~= no_process());
    let mut r: Vec<InterfaceInfo> = Vec::new();
    r.push(
        InterfaceInfo {
            name: String::from_str("eth0"),
            speed: String::from_str("10 Gbps"),
            active: true,
        },
    );
    r.push(
        InterfaceInfo {
            name: String::from_str("wlan0"),
            speed: String::from_str("866 Mbps"),
            active: true,
        },
    );
    r.push(InterfaceInfo { name: String::from_str("lo"), speed: dash, active: false });
    assert forall|i: int| 0 <= i < 3 implies (#[trigger] r@[i].name@, r@[i].speed@, r@[i].active)
        == fallback_rows()[i] by {
        if i == 0 {
        } else if i == 1 {
        } else {
        }
    }
    r
}

/// The fallback interface list is the sample interface table, row for row.
pub proof fn law_fallback_interfaces_are_the_sample_ones()
    ensures
        fallback_rows().len() == sample_interfaces().len(),
        forall|i: int|
            0 <= i < fallback_rows().len() ==> #[trigger] fallback_rows()[i] == (
                sample_interfaces()[i].name@,
                sample_interfaces()[i].speed@,
                sample_interfaces()[i].active,
            ),
{
    reveal_strlit("—");
    assert("—"@ =~= no_process());
    assert forall|i: int| 0 <= i < fallback_rows().len() implies #[trigger] fallback_rows()[i] == (
        sample_interfaces()[i].name@,
        sample_interfaces()[i].speed@,
        sample_interfaces()[i].active,
    ) by {
        if i == 0 {
        } else if i == 1 {
        } else {
        }
    }
}

/// The text of a file, if it could be read.
pub open spec fn text_of(contents: Option<String>) -> Option<Seq<char>> {
    match contents {
        Some(c) => Some(c@),
        None => None,
    }
}

/// The interfaces from the entries of `/sys/class/net`, each with the texts
/// of its `operstate` and `speed` files where they could be read: one
/// interface per entry, named after it, up exactly when its state reads `up`
/// or `unknown`, with its speed as `speed_text` shows it; the fallback list
/// where there is no entry.
pub fn get_interfaces(entries: &Vec<(String, Option<String>, Option<String>)>) -> (r: Vec<InterfaceInfo>)
    ensures
        entries@.len() == 0 ==> r@.len() == 3 && forall|i: int|
            0 <= i < 3 ==> (#[trigger] r@[i].name@, r@[i].speed@, r@[i].active) == fallback_rows()[i],
        entries@.len() > 0 ==> r@.len() == entries@.len() && forall|i: int|
            0 <= i < r@.len() ==> {
                &&& #[trigger] r@[i].name == entries@[i].0
                &&& r@[i].active == operstate_active_text(text_of(entries@[i].1))
                &&& r@[i].speed@ == speed_text(text_of(entries@[i].2))
            },
{
    if entries.len() == 0 {
        return fallback_interfaces();
    }
    let mut r: Vec<InterfaceInfo> = Vec::new();
    let mut i: usize = 0;
    while i < entries.len()
        invariant
            i <= entries@.len(),
            r@.len() == i,
            forall|k: int|
                0 <= k < i ==> {
                    &&& #[trigger] r@[k].name == entries@[k].0
                    &&& r@[k].active == operstate_active_text(text_of(entries@[k].1))
                    &&& r@[k].speed@ == speed_text(text_of(entries@[k].2))
                },
        decreases entries@.len() - i,
    {
        let operstate: Option<&str> = match &entries[i].1 {
            Some(c) => Some(c.as_str()),
            None => None,
        };
        let speed: Option<&str> = match &entries[i].2 {
            Some(c) => Some(c.as_str()),
            None => None,
        };
        let active = operstate_active(operstate);
        let shown = speed_label(speed);
        r.push(InterfaceInfo { name: entries[i].0.clone(), speed: shown, active });
        i = i + 1;
    }
    r
}

} // verus!
