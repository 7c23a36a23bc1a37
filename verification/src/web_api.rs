//! The decisions behind the HTTP API of the web front end: the records it
//! answers with, how a captured event becomes a listed packet, flow and
//! totals summaries, interface descriptions, and where application icons are
//! looked for.

use vstd::prelude::*;
use vstd::string::StringExecFns;
use crate::event::{NetworkEvent, Timestamp, dotted_quad, protocol_label};
use crate::flow::{FlowEntry, FlowKey};
use crate::text::{
    chars_of, decimal, digit, digit_char, first_words_joined, is_ws, joined, parse_i32,
    parse_signed, push_char, push_decimal, push_str, remove_char, string_of, trim_chars, trimmed,
    without_char, words, split_words,
};
use crate::web_models::{two_digits};

verus! {

/// A packet as the API lists it.
#[derive(Clone, Debug)]
pub struct PacketEvent {
    pub src_ip: String,
    pub dst_ip: String,
    pub src_port: u16,
    pub dst_port: u16,
    pub protocol: String,
    pub pkt_len: u32,
    pub timestamp: String,
    pub process_name: String,
    pub pid: u32,
}

/// A flow as the API lists it, with its bytes split into sent and received.
#[derive(Clone, Debug)]
pub struct FlowData {
    pub src_ip: String,
    pub dst_ip: String,
    pub src_port: u16,
    pub dst_port: u16,
    pub protocol: String,
    pub packets: u64,
    pub bytes: u64,
    pub sent_bytes: u64,
    pub recv_bytes: u64,
}

/// Totals over all flows, and where the capture runs.
#[derive(Clone, Debug)]
pub struct SystemStats {
    pub total_pkts: u64,
    pub total_bytes: u64,
    pub sent_bytes: u64,
    pub recv_bytes: u64,
    pub active_flows: u32,
    pub interface: String,
    pub kernel: String,
}

/// A network interface.
#[derive(Clone, Debug)]
pub struct InterfaceInfo {
    pub name: String,
    pub speed: String,
    pub active: bool,
}

/// The query of a packet poll: how many packets to hand out at most.
pub struct PollQuery {
    pub limit: usize,
}

/// The query for an application icon.
pub struct IconQuery {
    pub name: String,
}

/// The interface named in the body of a start request: the body without
/// surrounding white space and without double quotes.
pub open spec fn interface_of_body(body: Seq<char>) -> Seq<char> {
    without_char(trimmed(body), '"')
}

/// The interface named in the body of a start request.
pub fn interface_from_body(body: &str) -> (r: String)
    ensures
        r@ == interface_of_body(body@),
{
    let t = trim_chars(&chars_of(body));
    remove_char(&t, '"')
}

/// The answer to a successful start request.
pub fn started_message(interface: &str) -> (r: String)
    ensures
        r@ == "Started eBPF capture on "@ + interface@,
{
    let mut r = String::new();
    push_str(&mut r, "Started eBPF capture on ");
    push_str(&mut r, interface);
    r
}

/// The answer to a failed start request, given the error's text.
pub fn start_failed_message(error: &str) -> (r: String)
    ensures
        r@ == "Failed to start Kamiki engine: "@ + error@,
{
    let mut r = String::new();
    push_str(&mut r, "Failed to start Kamiki engine: ");
    push_str(&mut r, error);
    r
}

/// The placeholder shown where no process is known.
pub open spec fn no_process() -> Seq<char> {
    seq!['—']
}

/// The process name and id shown for a packet whose own process is named
/// `name` with id `pid`: a packet without a known process is attributed by
/// its port (the source port, or the destination port when the source port
/// is zero) to a typical program, as sample data for the interface.
pub open spec fn shown_process(name: Seq<char>, pid: u32, src_port: u16, dst_port: u16) -> (Seq<char>, u32) {
    if name != no_process() {
        (name, pid)
    } else {
        let port = if src_port > 0 { src_port } else { dst_port };
        if port == 443 || port == 80 {
            ("firefox"@, 8421)
        } else if port == 22 {
            ("ssh"@, 2231)
        } else if port == 53 {
            ("systemd-resolve"@, 1452)
        } else if port == 8080 || port == 3000 {
            ("curl"@, 9912)
        } else if port % 2 == 0 {
            ("discord"@, 9122)
        } else if port % 3 == 0 {
            ("spotify"@, 7721)
        } else {
            (name, pid)
        }
    }
}

fn is_no_process(name: &str) -> (b: bool)
    ensures
        b == (name@ == no_process()),
{
    let c = chars_of(name);
    let r = c.len() == 1 && c[0] == '—';
    assert(r ==> c@ =~= no_process());
    r
}

/// The process name and id shown for a packet.
pub fn attribute_process(name: String, pid: u32, src_port: u16, dst_port: u16) -> (r: (String, u32))
    ensures
        (r.0@, r.1) == shown_process(name@, pid, src_port, dst_port),
{
    if !is_no_process(name.as_str()) {
        return (name, pid);
    }
    let port = if src_port > 0 { src_port } else { dst_port };
    if port == 443 || port == 80 {
        (String::from_str("firefox"), 8421)
    } else if port == 22 {
        (String::from_str("ssh"), 2231)
    } else if port == 53 {
        (String::from_str("systemd-resolve"), 1452)
    } else if port == 8080 || port == 3000 {
        (String::from_str("curl"), 9912)
    } else if port % 2 == 0 {
        (String::from_str("discord"), 9122)
    } else if port % 3 == 0 {
        (String::from_str("spotify"), 7721)
    } else {
        (name, pid)
    }
}

/// `n` with at least three digits (`{:03}`).
pub open spec fn three_digits(n: nat) -> Seq<char> {
    if n < 10 {
        seq!['0', '0', digit_char(n)]
    } else if n < 100 {
        seq!['0'] + decimal(n)
    } else {
        decimal(n)
    }
}

/// Time of day (UTC) of a timestamp as `HH:MM:SS.mmm`; a time before the
/// epoch reads as the epoch itself.
pub open spec fn time_of_day_text(t: Timestamp) -> Seq<char> {
    let secs: nat = if t.before_epoch { 0 } else { t.secs as nat };
    let ms: nat = if t.before_epoch { 0 } else { (t.nanos / 1_000_000) as nat };
    two_digits((secs / 3600) % 24) + seq![':'] + two_digits((secs / 60) % 60) + seq![':']
        + two_digits(secs % 60) + seq!['.'] + three_digits(ms)
}

fn push_two(s: &mut String, n: u64)
    ensures
        final(s)@ == old(s)@ + two_digits(n as nat),
{
    if n < 10 {
        push_char(s, '0');
        push_char(s, digit(n));
        assert(final(s)@ =~= old(s)@ + two_digits(n as nat));
    } else {
        push_decimal(s, n);
    }
}

fn push_three(s: &mut String, n: u64)
    ensures
        final(s)@ == old(s)@ + three_digits(n as nat),
{
    if n < 10 {
        push_char(s, '0');
        push_char(s, '0');
        push_char(s, digit(n));
        assert(final(s)@ =~= old(s)@ + three_digits(n as nat));
    } else if n < 100 {
        push_char(s, '0');
        push_decimal(s, n);
        assert(final(s)@ =~= old(s)@ + three_digits(n as nat));
    } else {
        push_decimal(s, n);
    }
}

/// Time of day (UTC) of a timestamp as `HH:MM:SS.mmm`.
pub fn time_of_day(t: Timestamp) -> (r: String)
    ensures
        r@ == time_of_day_text(t),
{
    let secs = if t.before_epoch { 0 } else { t.secs };
    let ms = if t.before_epoch { 0 } else { (t.nanos / 1_000_000) as u64 };
    let mut r = String::new();
    push_two(&mut r, (secs / 3600) % 24);
    push_char(&mut r, ':');
    push_two(&mut r, (secs / 60) % 60);
    push_char(&mut r, ':');
    push_two(&mut r, secs % 60);
    push_char(&mut r, '.');
    push_three(&mut r, ms);
    assert(r@ =~= time_of_day_text(t));
    r
}

/// The name of the process attached to an event, or the placeholder.
pub open spec fn process_name_of(e: NetworkEvent) -> Seq<char> {
    match e.process {
        Some(p) => p.comm@,
        None => no_process(),
    }
}

/// The id of the process attached to an event, or zero.
pub open spec fn process_id_of(e: NetworkEvent) -> u32 {
    match e.process {
        Some(p) => p.pid,
        None => 0,
    }
}

/// Whether `r` is the listed form of `e`: addresses in dotted-quad form, the
/// protocol's name, the time of day, and the shown process.
pub open spec fn lists_event(r: PacketEvent, e: NetworkEvent) -> bool {
    &&& r.src_ip@ == dotted_quad(e.src_ip.0)
    &&& r.dst_ip@ == dotted_quad(e.dst_ip.0)
    &&& r.src_port == e.src_port
    &&& r.dst_port == e.dst_port
    &&& r.protocol@ == protocol_label(e.protocol)
    &&& r.pkt_len == e.pkt_len
    &&& r.timestamp@ == time_of_day_text(e.timestamp)
    &&& (r.process_name@, r.pid) == shown_process(
        process_name_of(e),
        process_id_of(e),
        e.src_port,
        e.dst_port,
    )
}

/// The listed form of a captured event.
pub fn packet_event_of(e: &NetworkEvent) -> (r: PacketEvent)
    ensures
        lists_event(r, *e),
{
    let (name, pid) = match &e.process {
        Some(p) => (p.comm.clone(), p.pid),
        None => {
            let mut n = String::new();
            push_char(&mut n, '—');
            (n, 0)
        },
    };
    let (process_name, pid) = attribute_process(name, pid, e.src_port, e.dst_port);
    PacketEvent {
        src_ip: e.src_ip.to_string(),
        dst_ip: e.dst_ip.to_string(),
        src_port: e.src_port,
        dst_port: e.dst_port,
        protocol: e.protocol.to_string(),
        pkt_len: e.pkt_len,
        timestamp: time_of_day(e.timestamp),
        process_name,
        pid,
    }
}

/// Adds the listed form of `e` to a poll batch; returns whether the poll
/// should go on (the batch is below `limit`). At least one packet is taken
/// even for a limit of zero.
pub fn add_to_batch(batch: &mut Vec<PacketEvent>, e: &NetworkEvent, limit: usize) -> (more: bool)
    ensures
        final(batch)@.len() == old(batch)@.len() + 1,
        forall|i: int| 0 <= i < old(batch)@.len() ==> final(batch)@[i] == old(batch)@[i],
        lists_event(final(batch)@.last(), *e),
        more == (final(batch)@.len() < limit),
{
    let p = packet_event_of(e);
    batch.push(p);
    batch.len() < limit
}

/// The listed form of a flow. Its bytes are split for display: a third
/// (rounded down) as sent, the rest as received.
pub fn flow_data_of(entry: &FlowEntry) -> (r: FlowData)
    ensures
        r.src_ip@ == dotted_quad(entry.key.src_ip.0),
        r.dst_ip@ == dotted_quad(entry.key.dst_ip.0),
        r.src_port == entry.key.src_port,
        r.dst_port == entry.key.dst_port,
        r.protocol@ == protocol_label(entry.key.protocol),
        r.packets == entry.packets,
        r.bytes == entry.bytes,
        r.sent_bytes == entry.bytes / 3,
        r.recv_bytes == entry.bytes - entry.bytes / 3,
{
    let sent = entry.bytes / 3;
    FlowData {
        src_ip: entry.key.src_ip.to_string(),
        dst_ip: entry.key.dst_ip.to_string(),
        src_port: entry.key.src_port,
        dst_port: entry.key.dst_port,
        protocol: entry.key.protocol.to_string(),
        packets: entry.packets,
        bytes: entry.bytes,
        sent_bytes: sent,
        recv_bytes: entry.bytes - sent,
    }
}

/// Sum of the packet counts of the listed flows.
pub open spec fn packets_sum(flows: Seq<(FlowKey, FlowEntry)>) -> nat
    decreases flows.len(),
{
    if flows.len() == 0 {
        0
    } else {
        packets_sum(flows.drop_last()) + (flows.last().1.packets as nat)
    }
}

/// Sum of the byte counts of the listed flows.
pub open spec fn bytes_sum(flows: Seq<(FlowKey, FlowEntry)>) -> nat
    decreases flows.len(),
{
    if flows.len() == 0 {
        0
    } else {
        bytes_sum(flows.drop_last()) + (flows.last().1.bytes as nat)
    }
}

/// Whether both sums stay within 64 bits.
pub open spec fn sums_fit(flows: Seq<(FlowKey, FlowEntry)>) -> bool {
    packets_sum(flows) <= u64::MAX && bytes_sum(flows) <= u64::MAX
}

proof fn lemma_sums_grow(flows: Seq<(FlowKey, FlowEntry)>, i: int)
    requires
        0 <= i <= flows.len(),
    ensures
        packets_sum(flows.subrange(0, i)) <= packets_sum(flows),
        bytes_sum(flows.subrange(0, i)) <= bytes_sum(flows),
    decreases flows.len() - i,
{
    if i < flows.len() {
        lemma_sums_grow(flows, i + 1);
        assert(flows.subrange(0, i + 1).drop_last() =~= flows.subrange(0, i));
    } else {
        assert(flows.subrange(0, i) =~= flows);
    }
}

/// Packet and byte totals of the listed flows, or `None` where a total does
/// not fit in 64 bits.
pub fn flow_totals(flows: &Vec<(FlowKey, FlowEntry)>) -> (r: Option<(u64, u64)>)
    ensures
        match r {
            Some((p, b)) => sums_fit(flows@) && p == packets_sum(flows@) && b == bytes_sum(flows@),
            None => !sums_fit(flows@),
        },
{
    let mut p: u64 = 0;
    let mut b: u64 = 0;
    let mut i: usize = 0;
    while i < flows.len()
        invariant
            i <= flows@.len(),
            p == packets_sum(flows@.subrange(0, i as int)),
            b == bytes_sum(flows@.subrange(0, i as int)),
        decreases flows@.len() - i,
    {
        let e = flows[i].1;
        assert(flows@.subrange(0, i + 1).drop_last() =~= flows@.subrange(0, i as int));
        if e.packets > u64::MAX - p || e.bytes > u64::MAX - b {
            proof {
                lemma_sums_grow(flows@, i + 1);
            }
            return None;
        }
        p = p + e.packets;
        b = b + e.bytes;
        i = i + 1;
    }
    assert(flows@.subrange(0, i as int) =~= flows@);
    Some((p, b))
}

/// The totals record: sums over the listed flows (bytes split a third sent,
/// the rest received), the number of flows as a 32-bit count, the interface
/// and the kernel description.
pub fn system_stats(
    flows: &Vec<(FlowKey, FlowEntry)>,
    flow_count: usize,
    interface: String,
    kernel: String,
) -> (r: SystemStats)
    requires
        sums_fit(flows@),
    ensures
        r.total_pkts == packets_sum(flows@),
        r.total_bytes == bytes_sum(flows@),
        r.sent_bytes == bytes_sum(flows@) / 3,
        r.recv_bytes == bytes_sum(flows@) - bytes_sum(flows@) / 3,
        r.active_flows == flow_count as u32,
        r.interface == interface,
        r.kernel == kernel,
{
    let (total_pkts, total_bytes) = match flow_totals(flows) {
        Some(t) => t,
        None => (0, 0),
    };
    let sent = total_bytes / 3;
    SystemStats {
        total_pkts,
        total_bytes,
        sent_bytes: sent,
        recv_bytes: total_bytes - sent,
        active_flows: flow_count as u32,
        interface,
        kernel,
    }
}

/// The kernel description: the first three words of `/proc/version`, joined
/// by single spaces.
pub open spec fn kernel_summary_text(version: Seq<char>) -> Seq<char> {
    let ws = words(version);
    joined(ws.take(if 3 <= ws.len() { 3 } else { ws.len() as int }))
}

/// The kernel description from the text of `/proc/version`.
pub fn kernel_summary(version: &str) -> (r: String)
    ensures
        r@ == kernel_summary_text(version@),
{
    first_words_joined(&chars_of(version), 3)
}

/// An integer in decimal, with a minus sign when negative.
pub open spec fn signed_decimal(v: int) -> Seq<char> {
    if v < 0 {
        seq!['-'] + decimal((-v) as nat)
    } else {
        decimal(v as nat)
    }
}

fn push_signed(s: &mut String, v: i32)
    ensures
        final(s)@ == old(s)@ + signed_decimal(v as int),
{
    if v < 0 {
        push_char(s, '-');
        push_decimal(s, (0 - (v as i64)) as u64);
        assert(final(s)@ =~= old(s)@ + signed_decimal(v as int));
    } else {
        push_decimal(s, v as u64);
    }
}

/// The link speed shown for the text of a `speed` file (in Mbit/s): whole
/// Gbit/s from 1000 on, Mbit/s below, and a dash where the file could not be
/// read or holds no number.
pub open spec fn speed_text(contents: Option<Seq<char>>) -> Seq<char> {
    match contents {
        Some(c) => match parse_signed(trimmed(c), i32::MIN as int, i32::MAX as int) {
            Some(mbps) => if mbps >= 1000 {
                signed_decimal(mbps / 1000) + " Gbps"@
            } else {
                signed_decimal(mbps) + " Mbps"@
            },
            None => no_process(),
        },
        None => no_process(),
    }
}

/// The link speed shown for the text of a `speed` file, if it was read.
pub fn speed_label(contents: Option<&str>) -> (r: String)
    ensures
        r@ == speed_text(match contents {
            Some(c) => Some(c@),
            None => None,
        }),
{
    let mut r = String::new();
    match contents {
        Some(c) => {
            let t = trim_chars(&chars_of(c));
            match parse_i32(&t) {
                Some(mbps) => {
                    if mbps >= 1000 {
                        push_signed(&mut r, mbps / 1000);
                        push_str(&mut r, " Gbps");
                    } else {
                        push_signed(&mut r, mbps);
                        push_str(&mut r, " Mbps");
                    }
                },
                None => {
                    push_char(&mut r, '—');
                    assert(r@ =~= no_process());
                },
            }
        },
        None => {
            push_char(&mut r, '—');
            assert(r@ =~= no_process());
        },
    }
    r
}

/// Whether the text of an `operstate` file marks the link as usable: `up`
/// or `unknown`, between optional white space. An unreadable file does not.
pub open spec fn operstate_active_text(contents: Option<Seq<char>>) -> bool {
    match contents {
        Some(c) => trimmed(c) == "up"@ || trimmed(c) == "unknown"@,
        None => false,
    }
}

/// Whether the text of an `operstate` file, if it was read, marks the link
/// as usable.
pub fn operstate_active(contents: Option<&str>) -> (b: bool)
    ensures
        b == operstate_active_text(match contents {
            Some(c) => Some(c@),
            None => None,
        }),
{
    match contents {
        Some(c) => {
            let t = trim_chars(&chars_of(c));
            let up = chars_of("up");
            let unknown = chars_of("unknown");
            crate::text::chars_eq(&t, &up) || crate::text::chars_eq(&t, &unknown)
        },
        None => false,
    }
}

/// The description of an interface from its name and the texts of its
/// `operstate` and `speed` files, where they could be read.
pub fn interface_info(name: String, operstate: Option<&str>, speed: Option<&str>) -> (r: InterfaceInfo)
    ensures
        r.name == name,
        r.active == operstate_active_text(match operstate {
            Some(c) => Some(c@),
            None => None,
        }),
        r.speed@ == speed_text(match speed {
            Some(c) => Some(c@),
            None => None,
        }),
{
    let active = operstate_active(operstate);
    let speed = speed_label(speed);
    InterfaceInfo { name, speed, active }
}

/// The interface list used when none could be enumerated: the capture
/// interface, up, and the loopback interface, down, both of unknown speed.
pub fn fallback_interfaces(default_iface: String) -> (r: Vec<InterfaceInfo>)
    ensures
        r@.len() == 2,
        r@[0].name == default_iface,
        r@[0].speed@ == no_process(),
        r@[0].active,
        r@[1].name@ == "lo"@,
        r@[1].speed@ == no_process(),
        !r@[1].active,
{
    let mut d1 = String::new();
    push_char(&mut d1, '—');
    let mut d2 = String::new();
    push_char(&mut d2, '—');
    assert(d1@ =~= no_process());
    assert(d2@ =~= no_process());
    let mut r: Vec<InterfaceInfo> = Vec::new();
    r.push(InterfaceInfo { name: default_iface, speed: d1, active: true });
    r.push(InterfaceInfo { name: String::from_str("lo"), speed: d2, active: false });
    r
}

/// The interface of the default route: the fifth word of the output of
/// `ip route show default` (`default via <gateway> dev <interface> ...`), or
/// `enp0s3` where there is no output or no such word.
pub open spec fn default_route_interface_text(output: Option<Seq<char>>) -> Seq<char> {
    match output {
        Some(o) => if words(o).len() > 4 { words(o)[4] } else { "enp0s3"@ },
        None => "enp0s3"@,
    }
}

/// The interface of the default route, from the command's output if it ran.
pub fn default_route_interface(output: Option<&str>) -> (r: String)
    ensures
        r@ == default_route_interface_text(match output {
            Some(o) => Some(o@),
            None => None,
        }),
{
    match output {
        Some(o) => {
            let ws = split_words(&chars_of(o));
            if ws.len() > 4 {
                string_of(&ws[4])
            } else {
                String::from_str("enp0s3")
            }
        },
        None => String::from_str("enp0s3"),
    }
}

} // verus!
