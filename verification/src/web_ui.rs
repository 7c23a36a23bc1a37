//! Decisions of the web front end's client: which interface to capture on,
//! the per-protocol counts of a poll, the rolling packet list and traffic
//! history, which packets a filter and search show, and the reconstructed
//! header of the selected packet.

use vstd::prelude::*;
use vstd::string::StringExecFns;
use vstd::string::StrSliceExecFns;
use std::collections::VecDeque;
use crate::text::{chars_eq, chars_of, push_char, push_str};
use crate::web_models::{CaptureState, InterfaceInfo, PacketEvent, ProtocolCount, SystemStats, TrafficSample};

verus! {

/// Whether a string reads exactly `lit`.
pub fn str_is(s: &str, lit: &str) -> (b: bool)
    ensures
        b == (s@ == lit@),
{
    chars_eq(&chars_of(s), &chars_of(lit))
}

/// Number of packets of `s` for which `f` holds.
pub open spec fn count_if(s: Seq<PacketEvent>, f: spec_fn(PacketEvent) -> bool) -> nat
    decreases s.len(),
{
    if s.len() == 0 {
        0
    } else {
        count_if(s.drop_last(), f) + (if f(s.last()) { 1nat } else { 0nat })
    }
}

proof fn lemma_count_if_le(s: Seq<PacketEvent>, f: spec_fn(PacketEvent) -> bool)
    ensures
        count_if(s, f) <= s.len(),
    decreases s.len(),
{
    if s.len() > 0 {
        lemma_count_if_le(s.drop_last(), f);
    }
}

pub open spec fn is_tcp(p: PacketEvent) -> bool {
    p.protocol@ == "TCP"@
}

pub open spec fn is_udp(p: PacketEvent) -> bool {
    p.protocol@ == "UDP"@
}

pub open spec fn is_control_message(p: PacketEvent) -> bool {
    p.protocol@ == "ICMP"@
}

pub open spec fn is_other(p: PacketEvent) -> bool {
    !is_tcp(p) && !is_udp(p) && !is_control_message(p)
}

pub open spec fn on_port(p: PacketEvent, port: u16) -> bool {
    p.src_port == port || p.dst_port == port
}

/// The labels and badge colours of the protocol filters, in order.
pub open spec fn filter_label(i: int) -> Seq<char> {
    if i == 0 {
        "TCP"@
    } else if i == 1 {
        "UDP"@
    } else if i == 2 {
        "ICMP"@
    } else if i == 3 {
        "DNS"@
    } else if i == 4 {
        "TLS"@
    } else {
        "Other"@
    }
}

pub open spec fn filter_color(i: int) -> Seq<char> {
    if i == 0 {
        "bg-blue-500"@
    } else if i == 1 {
        "bg-purple-500"@
    } else if i == 2 {
        "bg-yellow-500"@
    } else if i == 3 {
        "bg-orange-500"@
    } else if i == 4 {
        "bg-cyan-500"@
    } else {
        "bg-gray-500"@
    }
}

/// The packet counts of a batch for each filter: TCP, UDP, ICMP, DNS (either
/// port 53), TLS (either port 443) and other protocols.
pub open spec fn filter_count(s: Seq<PacketEvent>, i: int) -> nat {
    if i == 0 {
        count_if(s, |p: PacketEvent| is_tcp(p))
    } else if i == 1 {
        count_if(s, |p: PacketEvent| is_udp(p))
    } else if i == 2 {
        count_if(s, |p: PacketEvent| is_control_message(p))
    } else if i == 3 {
        count_if(s, |p: PacketEvent| on_port(p, 53))
    } else if i == 4 {
        count_if(s, |p: PacketEvent| on_port(p, 443))
    } else {
        count_if(s, |p: PacketEvent| is_other(p))
    }
}

/// Whether `cs` are the six filter badges with the counts of `pkts`.
pub open spec fn badge_counts(cs: Seq<ProtocolCount>, pkts: Seq<PacketEvent>) -> bool {
    &&& cs.len() == 6
    &&& forall|i: int|
        0 <= i < 6 ==> #[trigger] cs[i].label@ == filter_label(i) && cs[i].count == filter_count(
            pkts,
            i,
        ) && cs[i].color_class@ == filter_color(i)
}

fn make_counts(c0: u32, c1: u32, c2: u32, c3: u32, c4: u32, c5: u32) -> (r: Vec<ProtocolCount>)
    ensures
        r@.len() == 6,
        r@[0].count == c0,
        r@[1].count == c1,
        r@[2].count == c2,
        r@[3].count == c3,
        r@[4].count == c4,
        r@[5].count == c5,
        forall|i: int|
            0 <= i < 6 ==> #[trigger] r@[i].label@ == filter_label(i) && r@[i].color_class@
                == filter_color(i),
{
    let mut r: Vec<ProtocolCount> = Vec::new();
    r.push(ProtocolCount { label: String::from_str("TCP"), count: c0, color_class: String::from_str("bg-blue-500") });
    r.push(ProtocolCount { label: String::from_str("UDP"), count: c1, color_class: String::from_str("bg-purple-500") });
    r.push(ProtocolCount { label: String::from_str("ICMP"), count: c2, color_class: String::from_str("bg-yellow-500") });
    r.push(ProtocolCount { label: String::from_str("DNS"), count: c3, color_class: String::from_str("bg-orange-500") });
    r.push(ProtocolCount { label: String::from_str("TLS"), count: c4, color_class: String::from_str("bg-cyan-500") });
    r.push(ProtocolCount { label: String::from_str("Other"), count: c5, color_class: String::from_str("bg-gray-500") });
    assert forall|i: int| 0 <= i < 6 implies #[trigger] r@[i].label@ == filter_label(i)
        && r@[i].color_class@ == filter_color(i) by {
        assert(r@[i].label@ == filter_label(i));
        if i == 0 {
            assert(r@[i] == r@[0]);
        } else if i == 1 {
            assert(r@[i] == r@[1]);
        } else if i == 2 {
            assert(r@[i] == r@[2]);
        } else if i == 3 {
            assert(r@[i] == r@[3]);
        } else if i == 4 {
            assert(r@[i] == r@[4]);
        } else {
            assert(r@[i] == r@[5]);
        }
    }
    r
}

/// The protocol filters before any packet arrives: every count zero.
pub fn initial_protocol_counts() -> (r: Vec<ProtocolCount>)
    ensures
        r@.len() == 6,
        forall|i: int|
            0 <= i < 6 ==> #[trigger] r@[i].label@ == filter_label(i) && r@[i].count == 0
                && r@[i].color_class@ == filter_color(i),
{
    let r = make_counts(0, 0, 0, 0, 0, 0);
    assert forall|i: int| 0 <= i < 6 implies #[trigger] r@[i].label@ == filter_label(i) && r@[i].count
        == 0 && r@[i].color_class@ == filter_color(i) by {
        assert(r@[i].label@ == filter_label(i));
        if i == 0 {
            assert(r@[i] == r@[0]);
        } else if i == 1 {
            assert(r@[i] == r@[1]);
        } else if i == 2 {
            assert(r@[i] == r@[2]);
        } else if i == 3 {
            assert(r@[i] == r@[3]);
        } else if i == 4 {
            assert(r@[i] == r@[4]);
        } else {
            assert(r@[i] == r@[5]);
        }
    }
    r
}

proof fn lemma_protocol_names_differ()
    ensures
        "TCP"@ != "UDP"@,
        "TCP"@ != "ICMP"@,
        "UDP"@ != "ICMP"@,
{
    reveal_strlit("TCP");
    reveal_strlit("UDP");
    reveal_strlit("ICMP");
    assert("TCP"@[0] != "UDP"@[0]);
    assert("TCP"@.len() != "ICMP"@.len());
    assert("UDP"@.len() != "ICMP"@.len());
}

/// The badges count packets one by one: none for an empty batch, and a
/// packet added to a batch adds one to the TCP, UDP or ICMP badge when its
/// protocol is that name, to the DNS badge when either of its ports is 53, to
/// the TLS badge when either of its ports is 443, and to the other badge when
/// its protocol is none of the three names.
pub proof fn law_badges_count_each_packet(s: Seq<PacketEvent>, p: PacketEvent)
    ensures
        forall|i: int| 0 <= i < 6 ==> #[trigger] filter_count(Seq::<PacketEvent>::empty(), i) == 0,
        filter_count(s.push(p), 0) == filter_count(s, 0) + (if p.protocol@ == "TCP"@ { 1int } else { 0 }),
        filter_count(s.push(p), 1) == filter_count(s, 1) + (if p.protocol@ == "UDP"@ { 1int } else { 0 }),
        filter_count(s.push(p), 2) == filter_count(s, 2) + (if p.protocol@ == "ICMP"@ { 1int } else { 0 }),
        filter_count(s.push(p), 3) == filter_count(s, 3) + (if p.src_port == 53 || p.dst_port == 53 {
            1int
        } else {
            0
        }),
        filter_count(s.push(p), 4) == filter_count(s, 4) + (if p.src_port == 443 || p.dst_port == 443 {
            1int
        } else {
            0
        }),
        filter_count(s.push(p), 5) == filter_count(s, 5) + (if p.protocol@ != "TCP"@ && p.protocol@
            != "UDP"@ && p.protocol@ != "ICMP"@ {
            1int
        } else {
            0
        }),
{
    assert(s.push(p).drop_last() =~= s);
}

/// Every packet of a batch counts under exactly one of the TCP, UDP, ICMP
/// and other-protocol badges.
pub proof fn law_protocol_badges_partition(s: Seq<PacketEvent>)
    ensures
        filter_count(s, 0) + filter_count(s, 1) + filter_count(s, 2) + filter_count(s, 5) == s.len(),
    decreases s.len(),
{
    lemma_protocol_names_differ();
    if s.len() > 0 {
        law_protocol_badges_partition(s.drop_last());
    }
}

/// The protocol filter counts of a batch of packets.
pub fn tally_protocols(pkts: &Vec<PacketEvent>) -> (r: Vec<ProtocolCount>)
    requires
        pkts@.len() <= u32::MAX,
    ensures
        badge_counts(r@, pkts@),
{
    let mut c0: u32 = 0;
    let mut c1: u32 = 0;
    let mut c2: u32 = 0;
    let mut c3: u32 = 0;
    let mut c4: u32 = 0;
    let mut c5: u32 = 0;
    let mut k: usize = 0;
    proof {
        lemma_protocol_names_differ();
    }
    while k < pkts.len()
        invariant
            k <= pkts@.len(),
            pkts@.len() <= u32::MAX,
            "TCP"@ != "UDP"@,
            "TCP"@ != "ICMP"@,
            "UDP"@ != "ICMP"@,
            c0 == filter_count(pkts@.subrange(0, k as int), 0),
            c1 == filter_count(pkts@.subrange(0, k as int), 1),
            c2 == filter_count(pkts@.subrange(0, k as int), 2),
            c3 == filter_count(pkts@.subrange(0, k as int), 3),
            c4 == filter_count(pkts@.subrange(0, k as int), 4),
            c5 == filter_count(pkts@.subrange(0, k as int), 5),
        decreases pkts@.len() - k,
    {
        let ghost t = pkts@.subrange(0, k as int);
        let ghost s = pkts@.subrange(0, k + 1);
        assert(s.drop_last() =~= t);
        proof {
            lemma_count_if_le(t, |p: PacketEvent| is_tcp(p));
            lemma_count_if_le(t, |p: PacketEvent| is_udp(p));
            lemma_count_if_le(t, |p: PacketEvent| is_control_message(p));
            lemma_count_if_le(t, |p: PacketEvent| on_port(p, 53));
            lemma_count_if_le(t, |p: PacketEvent| on_port(p, 443));
            lemma_count_if_le(t, |p: PacketEvent| is_other(p));
        }
        let p = &pkts[k];
        assert(s.last() == *p);
        let tcp = str_is(p.protocol.as_str(), "TCP");
        let udp = str_is(p.protocol.as_str(), "UDP");
        let control = str_is(p.protocol.as_str(), "ICMP");
        if tcp {
            c0 = c0 + 1;
        } else if udp {
            c1 = c1 + 1;
        } else if control {
            c2 = c2 + 1;
        } else {
            c5 = c5 + 1;
        }
        if p.src_port == 53 || p.dst_port == 53 {
            c3 = c3 + 1;
        }
        if p.src_port == 443 || p.dst_port == 443 {
            c4 = c4 + 1;
        }
        k = k + 1;
    }
    assert(pkts@.subrange(0, pkts@.len() as int) =~= pkts@);
    let r = make_counts(c0, c1, c2, c3, c4, c5);
    assert forall|i: int| 0 <= i < 6 implies #[trigger] r@[i].label@ == filter_label(i) && r@[i].count
        == filter_count(pkts@, i) && r@[i].color_class@ == filter_color(i) by {
        assert(r@[i].label@ == filter_label(i));
        if i == 0 {
            assert(r@[i] == r@[0]);
        } else if i == 1 {
            assert(r@[i] == r@[1]);
        } else if i == 2 {
            assert(r@[i] == r@[2]);
        } else if i == 3 {
            assert(r@[i] == r@[3]);
        } else if i == 4 {
            assert(r@[i] == r@[4]);
        } else {
            assert(r@[i] == r@[5]);
        }
    }
    r
}

/// How many packets the client keeps.
pub const MAX_CLIENT_PACKETS: usize = 500;

/// How many traffic samples the charts show.
pub const HISTORY_LEN: usize = 60;

/// A copy of a packet record.
pub fn copy_packet(p: &PacketEvent) -> (r: PacketEvent)
    ensures
        r == *p,
{
    PacketEvent {
        src_ip: p.src_ip.clone(),
        dst_ip: p.dst_ip.clone(),
        src_port: p.src_port,
        dst_port: p.dst_port,
        protocol: p.protocol.clone(),
        pkt_len: p.pkt_len,
        timestamp: p.timestamp.clone(),
        process_name: p.process_name.clone(),
        pid: p.pid,
    }
}

/// The packet list after a poll: the new packets appended, and the oldest
/// dropped beyond `MAX_CLIENT_PACKETS`.
pub open spec fn packets_after_poll(old: Seq<PacketEvent>, new: Seq<PacketEvent>) -> Seq<PacketEvent> {
    let all = old + new;
    if all.len() > MAX_CLIENT_PACKETS {
        all.skip(all.len() - MAX_CLIENT_PACKETS)
    } else {
        all
    }
}

/// The client's packet list never grows past `MAX_CLIENT_PACKETS`, and a
/// poll keeps the newest packets: the list ends with the polled packets that
/// fit, after the older packets that still fit.
pub proof fn law_client_packets_bounded(old: Seq<PacketEvent>, new: Seq<PacketEvent>)
    ensures
        packets_after_poll(old, new).len() <= MAX_CLIENT_PACKETS,
        packets_after_poll(old, new).len() == (if old.len() + new.len() > MAX_CLIENT_PACKETS {
            MAX_CLIENT_PACKETS as nat
        } else {
            old.len() + new.len()
        }),
        forall|i: int|
            0 <= i < packets_after_poll(old, new).len() ==> #[trigger] packets_after_poll(old, new)[i]
                == (old + new)[(old.len() + new.len()) - packets_after_poll(old, new).len() + i],
{
}

/// Applies a poll's packets: a non-empty batch is appended to the packet list
/// (which keeps its newest `MAX_CLIENT_PACKETS`), counted in the capture's
/// event total, and tallied per protocol filter; an empty batch changes
/// nothing and gives no new counts.
pub fn apply_poll(
    packets: &mut Vec<PacketEvent>,
    capture: &mut CaptureState,
    new: &Vec<PacketEvent>,
) -> (counts: Option<Vec<ProtocolCount>>)
    requires
        new@.len() <= u32::MAX,
        old(capture).total_events + new@.len() <= u64::MAX,
    ensures
        new@.len() == 0 ==> counts is None && *final(packets) == *old(packets) && *final(capture)
            == *old(capture),
        new@.len() > 0 ==> {
            &&& final(packets)@ == packets_after_poll(old(packets)@, new@)
            &&& final(capture).total_events == old(capture).total_events + new@.len()
            &&& final(capture).interface == old(capture).interface
            &&& final(capture).is_live == old(capture).is_live
            &&& final(capture).uptime_secs == old(capture).uptime_secs
            &&& final(capture).dropped == old(capture).dropped
            &&& counts is Some
        },
        counts is Some ==> badge_counts(counts->0@, new@),
{
    if new.len() == 0 {
        return None;
    }
    let mut all: Vec<PacketEvent> = Vec::new();
    let mut i: usize = 0;
    while i < packets.len()
        invariant
            i <= packets@.len(),
            all@ == packets@.subrange(0, i as int),
        decreases packets@.len() - i,
    {
        all.push(copy_packet(&packets[i]));
        i = i + 1;
    }
    let mut j: usize = 0;
    assert(packets@.subrange(0, packets@.len() as int) =~= packets@);
    while j < new.len()
        invariant
            j <= new@.len(),
            all@ == packets@ + new@.subrange(0, j as int),
        decreases new@.len() - j,
    {
        all.push(copy_packet(&new[j]));
        assert(packets@ + new@.subrange(0, j + 1) =~= all@);
        j = j + 1;
    }
    assert(new@.subrange(0, new@.len() as int) =~= new@);
    let start = if all.len() > MAX_CLIENT_PACKETS { all.len() - MAX_CLIENT_PACKETS } else { 0 };
    let mut kept: Vec<PacketEvent> = Vec::new();
    let mut k = start;
    while k < all.len()
        invariant
            start <= k <= all@.len(),
            kept@ == all@.subrange(start as int, k as int),
        decreases all@.len() - k,
    {
        kept.push(copy_packet(&all[k]));
        assert(kept@ =~= all@.subrange(start as int, k + 1));
        k = k + 1;
    }
    assert(kept@ =~= packets_after_poll(packets@, new@));
    *packets = kept;
    capture.total_events = capture.total_events + new.len() as u64;
    let c = tally_protocols(new);
    assert(packets@ == packets_after_poll(old(packets)@, new@));
    assert(capture.total_events == old(capture).total_events + new@.len());
    Some(c)
}

/// A stand-in traffic sample for the charts, derived from the number of
/// active flows and the refresh counter.
pub open spec fn mock_sample(active_flows: u32, tick: u64) -> TrafficSample {
    let base = active_flows * 1234 + (tick % 7) * 450;
    let bytes = if base == 0 { (tick % 5) * 200 } else { base };
    TrafficSample {
        bytes_in_window: bytes as u64,
        sent_bytes_in_window: (bytes / 2 + (tick % 3) * 100) as u64,
        recv_bytes_in_window: (bytes - bytes / 3) as u64,
        packets_in_window: (10 + tick % 5) as u64,
        active_flows,
    }
}

/// A stand-in traffic sample for the charts.
pub fn mock_traffic_sample(active_flows: u32, tick: u64) -> (t: TrafficSample)
    ensures
        t == mock_sample(active_flows, tick),
{
    let mut bytes: u64 = (active_flows as u64) * 1234 + (tick % 7) * 450;
    if bytes == 0 {
        bytes = (tick % 5) * 200;
    }
    TrafficSample {
        bytes_in_window: bytes,
        sent_bytes_in_window: bytes / 2 + (tick % 3) * 100,
        recv_bytes_in_window: bytes - bytes / 3,
        packets_in_window: 10 + tick % 5,
        active_flows,
    }
}

/// The history after a sample arrives: appended, the oldest dropped beyond
/// `HISTORY_LEN`.
pub open spec fn history_after(h: Seq<TrafficSample>, t: TrafficSample) -> Seq<TrafficSample> {
    if h.len() + 1 > HISTORY_LEN {
        h.push(t).drop_first()
    } else {
        h.push(t)
    }
}

/// A full traffic history stays full: a new sample goes at the end and the
/// oldest leaves.
pub proof fn law_history_stays_full(h: Seq<TrafficSample>, t: TrafficSample)
    requires
        h.len() == HISTORY_LEN,
    ensures
        history_after(h, t).len() == HISTORY_LEN,
        history_after(h, t).last() == t,
        forall|i: int| 0 <= i < HISTORY_LEN - 1 ==> #[trigger] history_after(h, t)[i] == h[i + 1],
{
}

/// Appends a sample to the traffic history, keeping at most `HISTORY_LEN`.
pub fn push_sample(history: &mut VecDeque<TrafficSample>, t: TrafficSample)
    ensures
        final(history)@ == history_after(old(history)@, t),
{
    history.push_back(t);
    if history.len() > HISTORY_LEN {
        history.pop_front();
    }
}

/// A sample with nothing counted.
pub open spec fn empty_sample() -> TrafficSample {
    TrafficSample {
        bytes_in_window: 0,
        sent_bytes_in_window: 0,
        recv_bytes_in_window: 0,
        packets_in_window: 0,
        active_flows: 0,
    }
}

/// The traffic history before any sample: `HISTORY_LEN` empty samples.
pub fn initial_history() -> (h: VecDeque<TrafficSample>)
    ensures
        h@.len() == HISTORY_LEN,
        forall|i: int| 0 <= i < HISTORY_LEN ==> #[trigger] h@[i] == empty_sample(),
{
    let mut h: VecDeque<TrafficSample> = VecDeque::new();
    let mut i: usize = 0;
    while i < HISTORY_LEN
        invariant
            i <= HISTORY_LEN,
            h@.len() == i,
            forall|k: int| 0 <= k < i ==> #[trigger] h@[k] == empty_sample(),
        decreases HISTORY_LEN - i,
    {
        h.push_back(TrafficSample::default());
        i = i + 1;
    }
    h
}

/// Whether an interface is the loopback interface.
pub open spec fn is_loopback(i: InterfaceInfo) -> bool {
    i.name@ == "lo"@
}

/// The interface to start capturing on: the first active interface other
/// than loopback, else the first interface other than loopback, else the
/// first interface; none for an empty list.
pub open spec fn capture_choice(ifaces: Seq<InterfaceInfo>) -> Option<Seq<char>> {
    if ifaces.len() == 0 {
        None
    } else if exists|i: int| 0 <= i < ifaces.len() && ifaces[i].active && !is_loopback(ifaces[i]) {
        let i = choose|i: int|
            0 <= i < ifaces.len() && ifaces[i].active && !is_loopback(ifaces[i]) && forall|j: int|
                0 <= j < i ==> !(ifaces[j].active && !is_loopback(ifaces[j]));
        Some(ifaces[i].name@)
    } else if exists|i: int| 0 <= i < ifaces.len() && !is_loopback(ifaces[i]) {
        let i = choose|i: int|
            0 <= i < ifaces.len() && !is_loopback(ifaces[i]) && forall|j: int|
                0 <= j < i ==> is_loopback(ifaces[j]);
        Some(ifaces[i].name@)
    } else {
        Some(ifaces[0].name@)
    }
}

/// The interface to start capturing on.
pub fn choose_capture_interface(ifaces: &Vec<InterfaceInfo>) -> (r: Option<String>)
    ensures
        match r {
            Some(n) => capture_choice(ifaces@) == Some(n@),
            None => capture_choice(ifaces@) is None,
        },
{
    if ifaces.len() == 0 {
        return None;
    }
    let mut i: usize = 0;
    while i < ifaces.len()
        invariant
            i <= ifaces@.len(),
            forall|j: int| 0 <= j < i ==> !(ifaces@[j].active && !is_loopback(ifaces@[j])),
        decreases ifaces@.len() - i,
    {
        if ifaces[i].active && !str_is(ifaces[i].name.as_str(), "lo") {
            assert(ifaces@[i as int].active && !is_loopback(ifaces@[i as int]));
            return Some(ifaces[i].name.clone());
        }
        i = i + 1;
    }
    let mut k: usize = 0;
    while k < ifaces.len()
        invariant
            k <= ifaces@.len(),
            forall|j: int| 0 <= j < ifaces@.len() ==> !(ifaces@[j].active && !is_loopback(ifaces@[j])),
            forall|j: int| 0 <= j < k ==> is_loopback(ifaces@[j]),
        decreases ifaces@.len() - k,
    {
        if !str_is(ifaces[k].name.as_str(), "lo") {
            assert(!is_loopback(ifaces@[k as int]));
            return Some(ifaces[k].name.clone());
        }
        k = k + 1;
    }
    Some(ifaces[0].name.clone())
}

/// The packet selected in the list, if the selection is within it.
pub fn selected_packet(packets: &Vec<PacketEvent>, idx: Option<usize>) -> (r: Option<PacketEvent>)
    ensures
        r == (match idx {
            Some(i) => if i < packets@.len() { Some(packets@[i as int]) } else { None },
            None => None,
        }),
{
    match idx {
        Some(i) => if i < packets.len() {
            Some(copy_packet(&packets[i]))
        } else {
            None
        },
        None => None,
    }
}

/// The interface shown in the status bar: the capture's, else the one the
/// statistics name.
pub fn status_interface(cap: &CaptureState, stats: &SystemStats) -> (r: String)
    ensures
        r == (match cap.interface {
            Some(i) => i,
            None => stats.interface,
        }),
{
    match &cap.interface {
        Some(i) => i.clone(),
        None => stats.interface.clone(),
    }
}

/// The kernel shown in the status bar: the statistics' description, or
/// `Linux` where it is empty.
pub fn status_kernel(stats: &SystemStats) -> (r: String)
    ensures
        r@ == (if stats.kernel@.len() == 0 { "Linux"@ } else { stats.kernel@ }),
{
    if stats.kernel.as_str().unicode_len() == 0 {
        String::from_str("Linux")
    } else {
        stats.kernel.clone()
    }
}

/// The IP protocol number that a protocol name stands for in the
/// reconstructed header (zero for names other than TCP, UDP and ICMP).
pub open spec fn protocol_number_of_name(name: Seq<char>) -> u8 {
    if name == "TCP"@ {
        6
    } else if name == "UDP"@ {
        17
    } else if name == "ICMP"@ {
        1
    } else {
        0
    }
}

/// The 32-byte header reconstructed from a packet's metadata for the hex
/// view: an IPv4 header start (version and length, total length, flags, TTL
/// 64, protocol), the two ports, and zero padding.
pub open spec fn header_bytes_of(p: PacketEvent) -> Seq<u8> {
    Seq::new(
        32,
        |i: int|
            if i == 0 {
                0x45u8
            } else if i == 2 {
                ((p.pkt_len / 256) % 256) as u8
            } else if i == 3 {
                (p.pkt_len % 256) as u8
            } else if i == 4 || i == 6 {
                0x40u8
            } else if i == 7 {
                protocol_number_of_name(p.protocol@)
            } else if i == 8 {
                (p.src_port / 256) as u8
            } else if i == 9 {
                (p.src_port % 256) as u8
            } else if i == 10 {
                (p.dst_port / 256) as u8
            } else if i == 11 {
                (p.dst_port % 256) as u8
            } else {
                0u8
            },
    )
}

/// The reconstructed header of a packet.
pub fn header_bytes(p: &PacketEvent) -> (b: Vec<u8>)
    ensures
        b@ == header_bytes_of(*p),
{
    proof {
        lemma_protocol_names_differ();
    }
    let proto: u8 = if str_is(p.protocol.as_str(), "TCP") {
        6
    } else if str_is(p.protocol.as_str(), "UDP") {
        17
    } else if str_is(p.protocol.as_str(), "ICMP") {
        1
    } else {
        0
    };
    let mut b: Vec<u8> = Vec::new();
    b.push(0x45);
    b.push(0x00);
    b.push(((p.pkt_len / 256) % 256) as u8);
    b.push((p.pkt_len % 256) as u8);
    b.push(0x40);
    b.push(0x00);
    b.push(0x40);
    b.push(proto);
    b.push((p.src_port / 256) as u8);
    b.push((p.src_port % 256) as u8);
    b.push((p.dst_port / 256) as u8);
    b.push((p.dst_port % 256) as u8);
    while b.len() < 32
        invariant
            12 <= b@.len() <= 32,
            forall|i: int| 0 <= i < b@.len() ==> #[trigger] b@[i] == header_bytes_of(*p)[i],
        decreases 32 - b@.len(),
    {
        b.push(0x00);
    }
    assert(b@ =~= header_bytes_of(*p));
    b
}

/// Lowercase hexadecimal digit of a value below sixteen.
pub open spec fn hex_digit(d: nat) -> char {
    if d < 10 {
        ((48 + d) as u32) as char
    } else {
        ((87 + d) as u32) as char
    }
}

/// Two lowercase hex digits of a byte (`{:02x}`).
pub open spec fn hex_pair(b: u8) -> Seq<char> {
    seq![hex_digit((b / 16) as nat), hex_digit((b % 16) as nat)]
}

/// Bytes in hex, separated by single spaces.
pub open spec fn hex_text(s: Seq<u8>) -> Seq<char>
    decreases s.len(),
{
    if s.len() == 0 {
        Seq::empty()
    } else if s.len() == 1 {
        hex_pair(s[0])
    } else {
        hex_text(s.drop_last()) + seq![' '] + hex_pair(s.last())
    }
}

/// The character shown for a byte: itself if it is a visible ASCII
/// character, otherwise a dot.
pub open spec fn shown_char(b: u8) -> char {
    if 0x21 <= b && b <= 0x7e {
        (b as u32) as char
    } else {
        '.'
    }
}

fn hex_digit_exec(d: u8) -> (c: char)
    requires
        d < 16,
    ensures
        c == hex_digit(d as nat),
{
    if d < 10 {
        crate::text::digit(d as u64)
    } else {
        match d {
            10 => 'a',
            11 => 'b',
            12 => 'c',
            13 => 'd',
            14 => 'e',
            _ => 'f',
        }
    }
}

/// One hex-dump line: the bytes of `b` from `from` up to `to` in hex.
pub fn hex_line(b: &Vec<u8>, from: usize, to: usize) -> (s: String)
    requires
        from <= to <= b@.len(),
    ensures
        s@ == hex_text(b@.subrange(from as int, to as int)),
{
    let mut s = String::new();
    let mut i = from;
    while i < to
        invariant
            from <= i <= to <= b@.len(),
            s@ == hex_text(b@.subrange(from as int, i as int)),
        decreases to - i,
    {
        let ghost t = b@.subrange(from as int, i + 1);
        assert(t.drop_last() =~= b@.subrange(from as int, i as int));
        if i > from {
            push_char(&mut s, ' ');
        }
        let x = b[i];
        push_char(&mut s, hex_digit_exec(x / 16));
        push_char(&mut s, hex_digit_exec(x % 16));
        proof {
            if i == from {
                assert(b@.subrange(from as int, i as int) =~= Seq::<u8>::empty());
                assert(t.len() == 1);
            }
        }
        assert(s@ =~= hex_text(t));
        i = i + 1;
    }
    s
}

/// The characters shown for bytes.
pub open spec fn ascii_text(s: Seq<u8>) -> Seq<char> {
    Seq::new(s.len(), |i: int| shown_char(s[i]))
}

fn shown_char_exec(x: u8) -> (c: char)
    ensures
        c == shown_char(x),
{
    if 0x21 <= x && x <= 0x7e {
        x as char
    } else {
        '.'
    }
}

/// One hex-dump line: the bytes of `b` from `from` up to `to` as characters.
pub fn ascii_line(b: &Vec<u8>, from: usize, to: usize) -> (s: String)
    requires
        from <= to <= b@.len(),
    ensures
        s@ == ascii_text(b@.subrange(from as int, to as int)),
{
    let mut s = String::new();
    let mut i = from;
    while i < to
        invariant
            from <= i <= to <= b@.len(),
            s@ == ascii_text(b@.subrange(from as int, i as int)),
        decreases to - i,
    {
        push_char(&mut s, shown_char_exec(b[i]));
        assert(s@ =~= ascii_text(b@.subrange(from as int, i + 1)));
        i = i + 1;
    }
    s
}

/// The largest sent byte count of the samples (zero for none).
pub open spec fn max_sent(h: Seq<TrafficSample>) -> u64
    decreases h.len(),
{
    if h.len() == 0 {
        0
    } else if h.last().sent_bytes_in_window > max_sent(h.drop_last()) {
        h.last().sent_bytes_in_window
    } else {
        max_sent(h.drop_last())
    }
}

/// The largest received byte count of the samples (zero for none).
pub open spec fn max_recv(h: Seq<TrafficSample>) -> u64
    decreases h.len(),
{
    if h.len() == 0 {
        0
    } else if h.last().recv_bytes_in_window > max_recv(h.drop_last()) {
        h.last().recv_bytes_in_window
    } else {
        max_recv(h.drop_last())
    }
}

/// The top of the traffic chart's scale: the largest sent or received byte
/// count of the history, at least one.
pub open spec fn chart_peak_of(h: Seq<TrafficSample>) -> u64 {
    let s: u64 = if max_sent(h) > 1 { max_sent(h) } else { 1 };
    let r: u64 = if max_recv(h) > 1 { max_recv(h) } else { 1 };
    if s > r { s } else { r }
}

/// The top of the traffic chart's scale.
pub fn chart_peak(history: &VecDeque<TrafficSample>) -> (m: u64)
    ensures
        m == chart_peak_of(history@),
{
    let mut ms: u64 = 0;
    let mut mr: u64 = 0;
    let mut i: usize = 0;
    while i < history.len()
        invariant
            i <= history@.len(),
            ms == max_sent(history@.subrange(0, i as int)),
            mr == max_recv(history@.subrange(0, i as int)),
        decreases history@.len() - i,
    {
        let t = &history[i];
        assert(history@.subrange(0, i + 1).drop_last() =~= history@.subrange(0, i as int));
        if t.sent_bytes_in_window > ms {
            ms = t.sent_bytes_in_window;
        }
        if t.recv_bytes_in_window > mr {
            mr = t.recv_bytes_in_window;
        }
        i = i + 1;
    }
    assert(history@.subrange(0, history@.len() as int) =~= history@);
    let s = if ms > 1 { ms } else { 1 };
    let r = if mr > 1 { mr } else { 1 };
    if s > r { s } else { r }
}

/// The count of the first entry labelled `label`, or zero.
pub open spec fn labeled_count(cs: Seq<ProtocolCount>, label: Seq<char>) -> u32
    decreases cs.len(),
{
    if cs.len() == 0 {
        0
    } else if cs[0].label@ == label {
        cs[0].count
    } else {
        labeled_count(cs.drop_first(), label)
    }
}

/// The count of the first entry labelled `label`, or zero.
pub fn count_labeled(cs: &Vec<ProtocolCount>, label: &str) -> (n: u32)
    ensures
        n == labeled_count(cs@, label@),
{
    let mut i: usize = 0;
    assert(cs@.skip(0) =~= cs@);
    while i < cs.len()
        invariant
            i <= cs@.len(),
            labeled_count(cs@, label@) == labeled_count(cs@.skip(i as int), label@),
        decreases cs@.len() - i,
    {
        assert(cs@.skip(i as int).drop_first() =~= cs@.skip(i + 1));
        if str_is(cs[i].label.as_str(), label) {
            return cs[i].count;
        }
        i = i + 1;
    }
    0
}

/// The sum of the counts.
pub open spec fn counts_sum(cs: Seq<ProtocolCount>) -> nat
    decreases cs.len(),
{
    if cs.len() == 0 {
        0
    } else {
        counts_sum(cs.drop_last()) + (cs.last().count as nat)
    }
}

proof fn lemma_counts_sum_prefix(cs: Seq<ProtocolCount>, i: int)
    requires
        0 <= i <= cs.len(),
    ensures
        counts_sum(cs.subrange(0, i)) <= counts_sum(cs),
    decreases cs.len() - i,
{
    if i < cs.len() {
        lemma_counts_sum_prefix(cs, i + 1);
        assert(cs.subrange(0, i + 1).drop_last() =~= cs.subrange(0, i));
    } else {
        assert(cs.subrange(0, i) =~= cs);
    }
}

/// The total of the protocol counts, the share chart's whole.
pub fn counts_total(cs: &Vec<ProtocolCount>) -> (n: u32)
    requires
        counts_sum(cs@) <= u32::MAX,
    ensures
        n == counts_sum(cs@),
{
    let mut n: u32 = 0;
    let mut i: usize = 0;
    while i < cs.len()
        invariant
            i <= cs@.len(),
            counts_sum(cs@) <= u32::MAX,
            n == counts_sum(cs@.subrange(0, i as int)),
        decreases cs@.len() - i,
    {
        assert(cs@.subrange(0, i + 1).drop_last() =~= cs@.subrange(0, i as int));
        proof {
            lemma_counts_sum_prefix(cs@, i + 1);
        }
        n = n + cs[i].count;
        i = i + 1;
    }
    assert(cs@.subrange(0, cs@.len() as int) =~= cs@);
    n
}

/// The summary shown in a packet's info column.
pub open spec fn packet_info_text(p: PacketEvent) -> Seq<char> {
    if p.protocol@ == "TCP"@ {
        if on_port(p, 443) {
            "TLSv1.3 Application Data"@
        } else {
            "ACK"@
        }
    } else if p.protocol@ == "UDP"@ {
        if on_port(p, 53) {
            "Standard query A example.com"@
        } else {
            "UDP Payload"@
        }
    } else if p.protocol@ == "ICMP"@ {
        "Echo (ping) request"@
    } else {
        "SSH Protocol Data"@
    }
}

/// The summary shown in a packet's info column.
pub fn packet_info(p: &PacketEvent) -> (s: String)
    ensures
        s@ == packet_info_text(*p),
{
    let mut s = String::new();
    if str_is(p.protocol.as_str(), "TCP") {
        if p.src_port == 443 || p.dst_port == 443 {
            push_str(&mut s, "TLSv1.3 Application Data");
        } else {
            push_str(&mut s, "ACK");
        }
    } else if str_is(p.protocol.as_str(), "UDP") {
        if p.src_port == 53 || p.dst_port == 53 {
            push_str(&mut s, "Standard query A example.com");
        } else {
            push_str(&mut s, "UDP Payload");
        }
    } else if str_is(p.protocol.as_str(), "ICMP") {
        push_str(&mut s, "Echo (ping) request");
    } else {
        push_str(&mut s, "SSH Protocol Data");
    }
    proof {
        assert(Seq::<char>::empty() + "ACK"@ =~= "ACK"@);
        assert(Seq::<char>::empty() + "TLSv1.3 Application Data"@ =~= "TLSv1.3 Application Data"@);
        assert(Seq::<char>::empty() + "Standard query A example.com"@
            =~= "Standard query A example.com"@);
        assert(Seq::<char>::empty() + "UDP Payload"@ =~= "UDP Payload"@);
        assert(Seq::<char>::empty() + "Echo (ping) request"@ =~= "Echo (ping) request"@);
        assert(Seq::<char>::empty() + "SSH Protocol Data"@ =~= "SSH Protocol Data"@);
    }
    s
}

/// The direction shown for a packet: outgoing where it has a source port.
pub open spec fn direction_text(p: PacketEvent) -> Seq<char> {
    if p.src_port > 0 {
        "↑ Outgoing"@
    } else {
        "↓ Incoming"@
    }
}

/// The direction shown for a packet.
pub fn direction_label(p: &PacketEvent) -> (s: String)
    ensures
        s@ == direction_text(*p),
{
    let mut s = String::new();
    if p.src_port > 0 {
        push_str(&mut s, "↑ Outgoing");
    } else {
        push_str(&mut s, "↓ Incoming");
    }
    proof {
        assert(Seq::<char>::empty() + "↑ Outgoing"@ =~= "↑ Outgoing"@);
        assert(Seq::<char>::empty() + "↓ Incoming"@ =~= "↓ Incoming"@);
    }
    s
}

/// What one refresh of the client does.
#[derive(Clone, Copy, Debug, PartialEq, Eq, Structural)]
pub enum ClientStep {
    /// Nothing: the capture is not live.
    Wait,
    /// Poll for new packets.
    Poll,
    /// Poll for new packets, then count a second of uptime and fetch the
    /// flows and totals.
    PollAndRefresh,
}

/// How often, in refreshes, the client fetches flows and totals.
pub const REFRESH_EVERY: u64 = 5;

/// What the refresh numbered `tick` does: nothing while the capture is not
/// live, and a full refresh on every `REFRESH_EVERY`-th tick.
pub open spec fn client_step_of(is_live: bool, tick: u64) -> ClientStep {
    if !is_live {
        ClientStep::Wait
    } else if tick % REFRESH_EVERY == 0 {
        ClientStep::PollAndRefresh
    } else {
        ClientStep::Poll
    }
}

/// What the refresh numbered `tick` does.
pub fn client_step(is_live: bool, tick: u64) -> (s: ClientStep)
    ensures
        s == client_step_of(is_live, tick),
{
    if !is_live {
        ClientStep::Wait
    } else if tick % REFRESH_EVERY == 0 {
        ClientStep::PollAndRefresh
    } else {
        ClientStep::Poll
    }
}

/// Records how starting the capture on `interface` went: the capture shows
/// that interface, and is live exactly when the start succeeded.
pub fn record_start(capture: &mut CaptureState, interface: String, started: bool)
    ensures
        final(capture).interface == Some(interface),
        final(capture).is_live == started,
        final(capture).uptime_secs == old(capture).uptime_secs,
        final(capture).total_events == old(capture).total_events,
        final(capture).dropped == old(capture).dropped,
{
    capture.interface = Some(interface);
    capture.is_live = started;
}

/// Counts a second of uptime on a full refresh; other steps leave the
/// capture as it is.
pub fn note_refresh(capture: &mut CaptureState, step: ClientStep)
    requires
        step == ClientStep::PollAndRefresh ==> old(capture).uptime_secs < u64::MAX,
    ensures
        final(capture).uptime_secs == old(capture).uptime_secs + (if step
            == ClientStep::PollAndRefresh {
            1int
        } else {
            0int
        }),
        final(capture).interface == old(capture).interface,
        final(capture).is_live == old(capture).is_live,
        final(capture).total_events == old(capture).total_events,
        final(capture).dropped == old(capture).dropped,
{
    if step == ClientStep::PollAndRefresh {
        capture.uptime_secs = capture.uptime_secs + 1;
    }
}

} // verus!
