//! Flow tracking: packets are grouped into bidirectional flows keyed by their
//! normalised 5-tuple, and each flow counts its packets and bytes and records
//! when it was first and last seen.

use vstd::prelude::*;
use crate::event::{Ipv4Addr, NetworkEvent, Protocol};
use dashmap::DashMap;
use std::time::Instant;

verus! {

/// The 5-tuple of a flow.
#[derive(Clone, Copy, Debug, PartialEq, Eq, Structural, Hash)]
pub struct FlowKey {
    pub src_ip: Ipv4Addr,
    pub dst_ip: Ipv4Addr,
    pub src_port: u16,
    pub dst_port: u16,
    pub protocol: Protocol,
}

/// Whether endpoint `(ip_a, port_a)` comes after `(ip_b, port_b)` in the
/// order of (address, port) pairs, address first.
pub open spec fn endpoint_after(ip_a: u32, port_a: u16, ip_b: u32, port_b: u16) -> bool {
    ip_a > ip_b || (ip_a == ip_b && port_a > port_b)
}

impl FlowKey {
    /// The same flow seen from the other end: source and destination swapped.
    pub open spec fn reversed(self) -> FlowKey {
        FlowKey {
            src_ip: self.dst_ip,
            dst_ip: self.src_ip,
            src_port: self.dst_port,
            dst_port: self.src_port,
            protocol: self.protocol,
        }
    }

    /// The key with its lower endpoint first.
    pub open spec fn spec_normalized(self) -> FlowKey {
        if endpoint_after(self.src_ip.0, self.src_port, self.dst_ip.0, self.dst_port) {
            self.reversed()
        } else {
            self
        }
    }

    /// Puts the lower (address, port) endpoint first, so that both directions
    /// of a conversation share one key.
    pub fn normalized(self) -> (k: FlowKey)
        ensures
            k == self.spec_normalized(),
    {
        let mut k = self;
        if k.src_ip.0 > k.dst_ip.0 || (k.src_ip.0 == k.dst_ip.0 && k.src_port > k.dst_port) {
            let ip = k.src_ip;
            k.src_ip = k.dst_ip;
            k.dst_ip = ip;
            let port = k.src_port;
            k.src_port = k.dst_port;
            k.dst_port = port;
        }
        k
    }
}

/// Normalising a key twice gives the key normalised once.
pub proof fn lemma_normalized_idempotent(k: FlowKey)
    ensures
        k.spec_normalized().spec_normalized() == k.spec_normalized(),
{
}

/// Both directions of a conversation normalise to the same key.
pub proof fn lemma_normalized_direction_independent(k: FlowKey)
    ensures
        k.reversed().spec_normalized() == k.spec_normalized(),
{
}

/// The key of the flow that an event belongs to, before normalisation.
pub open spec fn event_key(e: NetworkEvent) -> FlowKey {
    FlowKey {
        src_ip: e.src_ip,
        dst_ip: e.dst_ip,
        src_port: e.src_port,
        dst_port: e.dst_port,
        protocol: e.protocol,
    }
}

/// A tracked flow. Times are nanoseconds on the table's monotonic clock.
#[derive(Clone, Copy, Debug)]
pub struct FlowEntry {
    pub key: FlowKey,
    pub first_seen: u64,
    pub last_seen: u64,
    pub packets: u64,
    pub bytes: u64,
}

impl FlowEntry {
    /// Time from first to last packet (zero if the clock readings are out of
    /// order).
    pub open spec fn spec_duration(self) -> u64 {
        if self.last_seen >= self.first_seen {
            (self.last_seen - self.first_seen) as u64
        } else {
            0
        }
    }

    /// Whether more than `idle_timeout` nanoseconds have passed since the last
    /// packet, at time `now`.
    pub open spec fn spec_is_idle(self, now: u64, idle_timeout: u64) -> bool {
        now > self.last_seen && now - self.last_seen > idle_timeout
    }

    /// Time from first to last packet, in nanoseconds.
    pub fn duration(&self) -> (d: u64)
        ensures
            d == self.spec_duration(),
    {
        if self.last_seen >= self.first_seen {
            self.last_seen - self.first_seen
        } else {
            0
        }
    }

    /// Whether the flow has been silent for longer than `idle_timeout`
    /// nanoseconds at time `now`.
    pub fn is_idle(&self, now: u64, idle_timeout: u64) -> (b: bool)
        ensures
            b == self.spec_is_idle(now, idle_timeout),
    {
        now > self.last_seen && now - self.last_seen > idle_timeout
    }

    /// Whether the flow stays in the table at time `now`.
    fn still_active(&self, now: u64, idle_timeout: u64) -> (b: bool)
        ensures
            b == !self.spec_is_idle(now, idle_timeout),
    {
        !self.is_idle(now, idle_timeout)
    }
}

/// A flow key as a tuple of integers: addresses, ports, and the protocol
/// coded one-to-one as 256, 257, 258 for TCP, UDP, ICMP and as its number
/// otherwise.
pub type FlowSlot = (u32, u32, u16, u16, u16);

pub open spec fn protocol_code(p: Protocol) -> u16 {
    match p {
        Protocol::Tcp => 256,
        Protocol::Udp => 257,
        Protocol::Unknown(n) => n as u16,
        _ => 258,
    }
}

pub open spec fn slot_of(k: FlowKey) -> FlowSlot {
    (k.src_ip.0, k.dst_ip.0, k.src_port, k.dst_port, protocol_code(k.protocol))
}

fn slot(k: &FlowKey) -> (s: FlowSlot)
    ensures
        s == slot_of(*k),
{
    let code: u16 = match k.protocol {
        Protocol::Tcp => 256,
        Protocol::Udp => 257,
        Protocol::Unknown(n) => n as u16,
        _ => 258,
    };
    (k.src_ip.0, k.dst_ip.0, k.src_port, k.dst_port, code)
}

/// Distinct keys have distinct slots.
pub proof fn lemma_slot_injective(a: FlowKey, b: FlowKey)
    ensures
        slot_of(a) == slot_of(b) ==> a == b,
{
}

#[verifier::external_type_specification]
#[verifier::external_body]
#[verifier::reject_recursive_types(K)]
#[verifier::reject_recursive_types(V)]
#[verifier::reject_recursive_types(S)]
pub struct ExDashMap<K, V, S>(DashMap<K, V, S>);

#[verifier::external_type_specification]
#[verifier::external_body]
pub struct ExInstant(Instant);

/// The map that holds the flows.
pub type FlowMap = DashMap<FlowSlot, FlowEntry>;

/// What a flow map holds: the value stored under each key.
pub uninterp spec fn flow_map_contents(m: FlowMap) -> Map<FlowSlot, FlowEntry>;

/// `DashMap::new`: an empty map.
#[verifier::external_body]
fn map_new() -> (fresh: FlowMap)
    ensures
        flow_map_contents(fresh).dom() == Set::<FlowSlot>::empty(),
{
    DashMap::new()
}

/// `DashMap::get`, copying the value out: the value stored under `k`, if any.
#[verifier::external_body]
fn map_get(m: &FlowMap, k: FlowSlot) -> (r: Option<FlowEntry>)
    ensures
        r == (if flow_map_contents(*m).contains_key(k) {
            Some(flow_map_contents(*m)[k])
        } else {
            None
        }),
{
    m.get(&k).map(|r| *r.value())
}

/// `DashMap::insert`: stores `v` under `k`, replacing any earlier value.
#[verifier::external_body]
fn map_insert(m: &mut FlowMap, k: FlowSlot, v: FlowEntry)
    ensures
        flow_map_contents(*final(m)) == flow_map_contents(*old(m)).insert(k, v),
{
    m.insert(k, v);
}

/// `DashMap::len`: the number of keys.
#[verifier::external_body]
fn map_len(m: &FlowMap) -> (n: usize)
    requires
        flow_map_contents(*m).dom().finite(),
    ensures
        n == flow_map_contents(*m).dom().len(),
{
    m.len()
}

/// `DashMap::iter`, copying each key and value out: every stored pair once,
/// in an order that the map's hashing decides.
#[verifier::external_body]
fn map_pairs(m: &FlowMap) -> (v: Vec<(FlowSlot, FlowEntry)>)
    requires
        flow_map_contents(*m).dom().finite(),
    ensures
        v@.len() == flow_map_contents(*m).dom().len(),
        forall|i: int|
            0 <= i < v@.len() ==> flow_map_contents(*m).contains_key(#[trigger] v@[i].0)
                && flow_map_contents(*m)[v@[i].0] == v@[i].1,
        forall|i: int, j: int| 0 <= i < j < v@.len() ==> v@[i].0 != v@[j].0,
        forall|k: FlowSlot|
            #[trigger] flow_map_contents(*m).contains_key(k) ==> exists|i: int|
                0 <= i < v@.len() && v@[i].0 == k,
{
    m.iter().map(|r| (*r.key(), *r.value())).collect()
}

/// `DashMap::retain`, keeping the flows that are not idle at `now`.
#[verifier::external_body]
fn map_retain_active(m: &mut FlowMap, now: u64, idle_timeout: u64)
    ensures
        flow_map_contents(*final(m)) == flow_map_contents(*old(m)).restrict(
            flow_map_contents(*old(m)).dom().filter(
                |s: FlowSlot| !flow_map_contents(*old(m))[s].spec_is_idle(now, idle_timeout),
            ),
        ),
{
    m.retain(|_, v| v.still_active(now, idle_timeout));
}

/// `Instant::now`: a fresh reading of the monotonic clock.
#[verifier::external_body]
fn instant_now() -> Instant {
    Instant::now()
}

/// `Instant::elapsed` as `Duration::as_nanos`: how many whole nanoseconds
/// ago `origin` was read. The value depends on the clock and is not stated.
#[verifier::external_body]
fn nanos_since(origin: &Instant) -> u128 {
    origin.elapsed().as_nanos()
}

/// Whether `snap` lists the flows of `m` with their keys: every flow, each
/// once.
pub open spec fn lists_flows(snap: Seq<(FlowKey, FlowEntry)>, m: Map<FlowSlot, FlowEntry>) -> bool {
    &&& snap.len() == m.dom().len()
    &&& forall|i: int|
        0 <= i < snap.len() ==> #[trigger] snap[i].1.key == snap[i].0 && m.contains_key(
            slot_of(snap[i].0),
        ) && m[slot_of(snap[i].0)] == snap[i].1
    &&& forall|s: FlowSlot| #[trigger]
        m.contains_key(s) ==> exists|i: int| 0 <= i < snap.len() && slot_of(snap[i].0) == s
}

/// The flows seen so far, keyed by normalised 5-tuple.
pub struct FlowTable {
    map: FlowMap,
    origin: Instant,
    last_reading: u64,
}

impl View for FlowTable {
    type V = Map<FlowSlot, FlowEntry>;

    closed spec fn view(&self) -> Map<FlowSlot, FlowEntry> {
        flow_map_contents(self.map)
    }
}

/// Whether every flow of `m` was first seen no later than last seen, and
/// last seen no later than `clock`.
pub open spec fn seen_in_order(m: Map<FlowSlot, FlowEntry>, clock: u64) -> bool {
    forall|s: FlowSlot| #[trigger]
        m.contains_key(s) ==> m[s].first_seen <= m[s].last_seen && m[s].last_seen <= clock
}

/// Whether each flow of `m` is stored under the slot of its own key, that
/// key is normalised, and the flow has counted at least one packet.
pub open spec fn keyed_flows(m: Map<FlowSlot, FlowEntry>) -> bool {
    forall|s: FlowSlot| #[trigger]
        m.contains_key(s) ==> slot_of(m[s].key) == s && m[s].key.spec_normalized() == m[s].key
            && m[s].packets >= 1
}

impl FlowTable {
    /// The latest time the table has recorded or evicted at.
    pub closed spec fn clock(&self) -> u64 {
        self.last_reading
    }

    /// The table is finite, its flows are keyed as `keyed_flows` says, and
    /// every flow's times are in order and no later than the table's clock.
    pub open spec fn wf(&self) -> bool {
        &&& self@.dom().finite()
        &&& keyed_flows(self@)
        &&& seen_in_order(self@, self.clock())
    }

    /// The latest time the table has recorded or evicted at.
    pub fn last_reading(&self) -> (c: u64)
        ensures
            c == self.clock(),
    {
        self.last_reading
    }

    /// Reads the clock for a recording or an eviction: the current reading,
    /// or the latest time already used if that is later, so that the table's
    /// times never go back.
    fn advance_clock(&mut self) -> (now: u64)
        requires
            old(self).wf(),
        ensures
            final(self).wf(),
            final(self)@ == old(self)@,
            now >= old(self).clock(),
            final(self).clock() == now,
    {
        let r = self.now();
        let now = if r > self.last_reading { r } else { self.last_reading };
        self.last_reading = now;
        now
    }

    /// An empty table whose clock starts now.
    pub fn new() -> (t: FlowTable)
        ensures
            t.wf(),
            t@ == Map::<FlowSlot, FlowEntry>::empty(),
            t.clock() == 0,
    {
        let t = FlowTable { map: map_new(), origin: instant_now(), last_reading: 0 };
        assert(t@ =~= Map::<FlowSlot, FlowEntry>::empty());
        t
    }

    /// Nanoseconds elapsed on the table's monotonic clock since it was made,
    /// held at `u64::MAX` once they no longer fit in 64 bits.
    pub fn now(&self) -> u64 {
        let n = nanos_since(&self.origin);
        if n > u64::MAX as u128 {
            u64::MAX
        } else {
            n as u64
        }
    }

    /// The flow stored under `key` exactly as given (not normalised).
    pub fn get(&self, key: &FlowKey) -> (r: Option<FlowEntry>)
        requires
            self.wf(),
        ensures
            r == (if self@.contains_key(slot_of(*key)) {
                Some(self@[slot_of(*key)])
            } else {
                None
            }),
            r matches Some(e) ==> e.key == *key,
    {
        let r = map_get(&self.map, slot(key));
        proof {
            if self@.contains_key(slot_of(*key)) {
                lemma_slot_injective(self@[slot_of(*key)].key, *key);
            }
        }
        r
    }

    /// The number of flows.
    pub fn len(&self) -> (n: usize)
        requires
            self.wf(),
        ensures
            n == self@.dom().len(),
    {
        map_len(&self.map)
    }

    /// Every flow once, with its key, in the table's own order.
    pub fn snapshot(&self) -> (v: Vec<(FlowKey, FlowEntry)>)
        requires
            self.wf(),
        ensures
            lists_flows(v@, self@),
            forall|i: int, j: int| 0 <= i < j < v@.len() ==> v@[i].0 != v@[j].0,
    {
        let pairs = map_pairs(&self.map);
        let mut v: Vec<(FlowKey, FlowEntry)> = Vec::new();
        let mut i: usize = 0;
        while i < pairs.len()
            invariant
                self.wf(),
                i <= pairs@.len(),
                v@.len() == i,
                pairs@.len() == self@.dom().len(),
                forall|k: int|
                    0 <= k < pairs@.len() ==> self@.contains_key(#[trigger] pairs@[k].0)
                        && self@[pairs@[k].0] == pairs@[k].1,
                forall|k: int| 0 <= k < i ==> #[trigger] v@[k] == (pairs@[k].1.key, pairs@[k].1),
            decreases pairs@.len() - i,
        {
            let e = pairs[i].1;
            v.push((e.key, e));
            i = i + 1;
        }
        assert forall|k: int| 0 <= k < v@.len() implies #[trigger] v@[k].1.key == v@[k].0
            && self@.contains_key(slot_of(v@[k].0)) && self@[slot_of(v@[k].0)] == v@[k].1 by {
            assert(self@.contains_key(pairs@[k].0));
        }
        assert forall|a: int, b: int| 0 <= a < b < v@.len() implies v@[a].0 != v@[b].0 by {
            assert(slot_of(v@[a].0) == pairs@[a].0);
            assert(slot_of(v@[b].0) == pairs@[b].0);
        }
        assert forall|s: FlowSlot| #[trigger] self@.contains_key(s) implies exists|k: int|
            0 <= k < v@.len() && slot_of(v@[k].0) == s by {
            let k = choose|k: int| 0 <= k < pairs@.len() && pairs@[k].0 == s;
            assert(slot_of(v@[k].0) == s);
        }
        v
    }
}

/// The flow that `e` is counted in after it is recorded at time `now` into a
/// table holding `old`.
pub open spec fn recorded(old: Map<FlowSlot, FlowEntry>, e: NetworkEvent, now: u64) -> FlowEntry {
    let key = event_key(e).spec_normalized();
    let s = slot_of(key);
    if old.contains_key(s) {
        FlowEntry {
            last_seen: now,
            packets: (old[s].packets + 1) as u64,
            bytes: (old[s].bytes + e.pkt_len) as u64,
            ..old[s]
        }
    } else {
        FlowEntry { key, first_seen: now, last_seen: now, packets: 1, bytes: e.pkt_len as u64 }
    }
}

/// Whether recording `e` keeps the counters of its flow within 64 bits.
pub open spec fn can_record(old: Map<FlowSlot, FlowEntry>, e: NetworkEvent) -> bool {
    let s = slot_of(event_key(e).spec_normalized());
    old.contains_key(s) ==> old[s].packets < u64::MAX && old[s].bytes + e.pkt_len <= u64::MAX
}

impl FlowTable {
    /// Whether recording `event` keeps the counters of its flow within 64 bits.
    pub fn can_record(&self, event: &NetworkEvent) -> (b: bool)
        requires
            self.wf(),
        ensures
            b == can_record(self@, *event),
    {
        let key = FlowKey {
            src_ip: event.src_ip,
            dst_ip: event.dst_ip,
            src_port: event.src_port,
            dst_port: event.dst_port,
            protocol: event.protocol,
        }.normalized();
        match map_get(&self.map, slot(&key)) {
            Some(e) => e.packets < u64::MAX && e.bytes <= u64::MAX - event.pkt_len as u64,
            None => true,
        }
    }
}

/// Counts `event` in its flow at time `now`: an existing flow gets one more
/// packet, the event's bytes and a new last-seen time; otherwise a new flow
/// starts with this packet.
pub fn update_flow_at(table: &mut FlowTable, event: &NetworkEvent, now: u64)
    requires
        old(table).wf(),
        can_record(old(table)@, *event),
        now >= old(table).clock(),
    ensures
        final(table).wf(),
        final(table)@ == old(table)@.insert(
            slot_of(event_key(*event).spec_normalized()),
            recorded(old(table)@, *event, now),
        ),
        final(table).clock() == now,
{
    let key = FlowKey {
        src_ip: event.src_ip,
        dst_ip: event.dst_ip,
        src_port: event.src_port,
        dst_port: event.dst_port,
        protocol: event.protocol,
    }.normalized();
    let s = slot(&key);
    let entry = match map_get(&table.map, s) {
        Some(e) => FlowEntry {
            last_seen: now,
            packets: e.packets + 1,
            bytes: e.bytes + event.pkt_len as u64,
            ..e
        },
        None => FlowEntry {
            key,
            first_seen: now,
            last_seen: now,
            packets: 1,
            bytes: event.pkt_len as u64,
        },
    };
    map_insert(&mut table.map, s, entry);
    table.last_reading = now;
}

/// Counts `event` in its flow at the current time of the table's clock.
pub fn update_flow(table: &mut FlowTable, event: &NetworkEvent)
    requires
        old(table).wf(),
        can_record(old(table)@, *event),
    ensures
        final(table).wf(),
        exists|now: u64|
            now >= old(table).clock() && final(table).clock() == now && final(table)@
                == old(table)@.insert(
                slot_of(event_key(*event).spec_normalized()),
                #[trigger] recorded(old(table)@, *event, now),
            ),
{
    let now = table.advance_clock();
    update_flow_at(table, event, now);
}

/// The flows of `m` that are not idle at `now`.
pub open spec fn active_flows(m: Map<FlowSlot, FlowEntry>, now: u64, idle_timeout: u64) -> Map<
    FlowSlot,
    FlowEntry,
> {
    m.restrict(m.dom().filter(|s: FlowSlot| !m[s].spec_is_idle(now, idle_timeout)))
}

/// Drops every flow that is idle at time `now`.
pub fn evict_idle_at(table: &mut FlowTable, now: u64, idle_timeout: u64)
    requires
        old(table).wf(),
    ensures
        final(table).wf(),
        final(table)@ == active_flows(old(table)@, now, idle_timeout),
        final(table).clock() == old(table).clock(),
{
    map_retain_active(&mut table.map, now, idle_timeout);
    assert(table@.dom() =~= old(table)@.dom().filter(
        |s: FlowSlot| !old(table)@[s].spec_is_idle(now, idle_timeout),
    ));
}

/// Drops every flow that is idle at the current time of the table's clock.
pub fn evict_idle(table: &mut FlowTable, idle_timeout: u64)
    requires
        old(table).wf(),
    ensures
        final(table).wf(),
        exists|now: u64|
            now >= old(table).clock() && final(table).clock() == now && final(table)@
                == #[trigger] active_flows(old(table)@, now, idle_timeout),
{
    let now = table.advance_clock();
    evict_idle_at(table, now, idle_timeout);
}

/// A packet and its reply are counted in one flow: after recording `e` at
/// `t1` and then `reply` (the same conversation seen from the other end) at
/// `t2`, the flow holds one packet more than after `e` alone, both packets'
/// bytes, the last-seen time `t2` and the first-seen time it had before.
pub proof fn law_reply_counted_in_same_flow(
    m: Map<FlowSlot, FlowEntry>,
    e: NetworkEvent,
    reply: NetworkEvent,
    t1: u64,
    t2: u64,
)
    requires
        event_key(reply) == event_key(e).reversed(),
    ensures
        ({
            let s = slot_of(event_key(e).spec_normalized());
            let after_e = m.insert(s, recorded(m, e, t1));
            &&& slot_of(event_key(reply).spec_normalized()) == s
            &&& recorded(after_e, reply, t2) == (FlowEntry {
                last_seen: t2,
                packets: (recorded(m, e, t1).packets + 1) as u64,
                bytes: (recorded(m, e, t1).bytes + reply.pkt_len) as u64,
                ..recorded(m, e, t1)
            })
        }),
{
    lemma_normalized_direction_independent(event_key(e));
}

/// Recording an event adds a flow to the table's count exactly when its
/// conversation is new, and stores, under the slot of the event's normalised
/// key, a flow with that key that counts one packet more and the event's bytes
/// more than the flow stored there before (or just this packet), last seen
/// at the time of recording.
pub proof fn law_recorded_flow_counts_the_packet(m: Map<FlowSlot, FlowEntry>, e: NetworkEvent, now: u64)
    requires
        m.dom().finite(),
        forall|s: FlowSlot| #[trigger] m.contains_key(s) ==> slot_of(m[s].key) == s,
    ensures
        ({
            let s = slot_of(event_key(e).spec_normalized());
            m.insert(s, recorded(m, e, now)).dom().len() == m.dom().len() + (if m.contains_key(s) {
                0int
            } else {
                1int
            })
        }),
        ({
            let k = event_key(e).spec_normalized();
            let s = slot_of(k);
            let r = recorded(m, e, now);
            &&& m.insert(s, r).contains_key(s)
            &&& m.insert(s, r)[s] == r
            &&& r.key == k
            &&& r.last_seen == now
            &&& r.packets == (if m.contains_key(s) { m[s].packets + 1 } else { 1 }) as u64
            &&& r.bytes == (if m.contains_key(s) { m[s].bytes + e.pkt_len } else { e.pkt_len as int }) as u64
        }),
{
    let k = event_key(e).spec_normalized();
    let s = slot_of(k);
    if m.contains_key(s) {
        lemma_slot_injective(m[s].key, k);
    }
}

/// Recording at a time no earlier than the table's clock keeps every flow's
/// first-seen time no later than its last-seen time, and both no later than
/// the new clock.
pub proof fn law_recording_keeps_times_in_order(
    m: Map<FlowSlot, FlowEntry>,
    clock: u64,
    e: NetworkEvent,
    now: u64,
)
    requires
        seen_in_order(m, clock),
        now >= clock,
    ensures
        seen_in_order(m.insert(slot_of(event_key(e).spec_normalized()), recorded(m, e, now)), now),
{
}

/// Recording keeps the table's shape: every flow stays keyed by its own
/// normalised key with at least one packet and its times in order; no flow is
/// removed, and every flow but the event's own is unchanged.
pub proof fn law_recording_keeps_table_shape(
    m: Map<FlowSlot, FlowEntry>,
    clock: u64,
    e: NetworkEvent,
    now: u64,
)
    requires
        keyed_flows(m),
        seen_in_order(m, clock),
        can_record(m, e),
        now >= clock,
    ensures
        ({
            let s = slot_of(event_key(e).spec_normalized());
            let after = m.insert(s, recorded(m, e, now));
            &&& keyed_flows(after)
            &&& seen_in_order(after, now)
            &&& forall|t: FlowSlot| #[trigger] m.contains_key(t) ==> after.contains_key(t)
            &&& forall|t: FlowSlot| t != s ==> (#[trigger] after.contains_key(t) <==> m.contains_key(t))
            &&& forall|t: FlowSlot| t != s && m.contains_key(t) ==> #[trigger] after[t] == m[t]
        }),
{
    lemma_normalized_idempotent(event_key(e));
}

/// Evicting twice at the same time drops nothing more than evicting once.
pub proof fn law_evict_idempotent(m: Map<FlowSlot, FlowEntry>, now: u64, idle_timeout: u64)
    ensures
        active_flows(active_flows(m, now, idle_timeout), now, idle_timeout) == active_flows(
            m,
            now,
            idle_timeout,
        ),
{
    assert(active_flows(active_flows(m, now, idle_timeout), now, idle_timeout) =~= active_flows(
        m,
        now,
        idle_timeout,
    ));
}

/// A flow that has just counted a packet is not evicted at that same time.
pub proof fn law_recorded_flow_survives_eviction(
    m: Map<FlowSlot, FlowEntry>,
    e: NetworkEvent,
    now: u64,
    idle_timeout: u64,
)
    ensures
        ({
            let s = slot_of(event_key(e).spec_normalized());
            let after = m.insert(s, recorded(m, e, now));
            &&& active_flows(after, now, idle_timeout).contains_key(s)
            &&& active_flows(after, now, idle_timeout)[s] == recorded(m, e, now)
        }),
{
}

/// Eviction keeps exactly the flows that are not idle, unchanged.
pub proof fn law_evict_keeps_active_flows(
    m: Map<FlowSlot, FlowEntry>,
    now: u64,
    idle_timeout: u64,
    s: FlowSlot,
)
    ensures
        active_flows(m, now, idle_timeout).contains_key(s) <==> (m.contains_key(s)
            && !m[s].spec_is_idle(now, idle_timeout)),
        active_flows(m, now, idle_timeout).contains_key(s) ==> active_flows(m, now, idle_timeout)[s]
            == m[s],
{
}

/// A reordering of a listing of the flows lists them too.
pub proof fn lemma_reordered_listing(
    listed: Seq<(FlowKey, FlowEntry)>,
    reordered: Seq<(FlowKey, FlowEntry)>,
    m: Map<FlowSlot, FlowEntry>,
)
    requires
        lists_flows(listed, m),
        reordered.to_multiset() == listed.to_multiset(),
        reordered.len() == listed.len(),
    ensures
        lists_flows(reordered, m),
{
    let ss = reordered;
    let ns = listed;
    assert forall|i: int| 0 <= i < ss.len() implies #[trigger] ss[i].1.key == ss[i].0
        && m.contains_key(slot_of(ss[i].0)) && m[slot_of(ss[i].0)] == ss[i].1 by {
        vstd::seq_lib::to_multiset_contains(ss, ss[i]);
        assert(ss.to_multiset().count(ss[i]) > 0);
        vstd::seq_lib::to_multiset_contains(ns, ss[i]);
        let j = choose|j: int| 0 <= j < ns.len() && ns[j] == ss[i];
        assert(ns[j].1.key == ns[j].0);
    }
    assert forall|s: FlowSlot| #[trigger] m.contains_key(s) implies exists|i: int|
        0 <= i < ss.len() && slot_of(ss[i].0) == s by {
        let j = choose|j: int| 0 <= j < ns.len() && slot_of(ns[j].0) == s;
        vstd::seq_lib::to_multiset_contains(ns, ns[j]);
        vstd::seq_lib::to_multiset_contains(ss, ns[j]);
        let i = choose|i: int| 0 <= i < ss.len() && ss[i] == ns[j];
        assert(slot_of(ss[i].0) == s);
    }
}

/// Whether flows come in order of decreasing byte count.
pub open spec fn by_bytes_desc(s: Seq<(FlowKey, FlowEntry)>) -> bool {
    forall|i: int, j: int| 0 <= i < j < s.len() ==> s[i].1.bytes >= s[j].1.bytes
}

/// Where `x` goes in `s`: after every leading flow with at least as many
/// bytes.
pub open spec fn bytes_insert_position(s: Seq<(FlowKey, FlowEntry)>, x: (FlowKey, FlowEntry)) -> int
    decreases s.len(),
{
    if s.len() == 0 {
        0
    } else if s[0].1.bytes >= x.1.bytes {
        1 + bytes_insert_position(s.drop_first(), x)
    } else {
        0
    }
}

/// The flows ordered by decreasing byte count, flows with equal counts in
/// the order they came in.
pub open spec fn sorted_by_bytes(s: Seq<(FlowKey, FlowEntry)>) -> Seq<(FlowKey, FlowEntry)>
    decreases s.len(),
{
    if s.len() == 0 {
        Seq::empty()
    } else {
        let acc = sorted_by_bytes(s.drop_last());
        acc.insert(bytes_insert_position(acc, s.last()), s.last())
    }
}

proof fn lemma_bytes_insert_position(s: Seq<(FlowKey, FlowEntry)>, x: (FlowKey, FlowEntry), k: int)
    requires
        0 <= k <= s.len(),
        forall|j: int| 0 <= j < k ==> #[trigger] s[j].1.bytes >= x.1.bytes,
        k == s.len() || s[k].1.bytes < x.1.bytes,
    ensures
        bytes_insert_position(s, x) == k,
    decreases k,
{
    if k > 0 {
        assert(s[0].1.bytes >= x.1.bytes);
        lemma_bytes_insert_position(s.drop_first(), x, k - 1);
    }
}

/// Orders flows by decreasing byte count; flows with equal counts keep their
/// relative order.
pub fn sort_by_bytes_desc(v: Vec<(FlowKey, FlowEntry)>) -> (r: Vec<(FlowKey, FlowEntry)>)
    ensures
        r@ == sorted_by_bytes(v@),
        by_bytes_desc(r@),
        r@.to_multiset() == v@.to_multiset(),
        r@.len() == v@.len(),
{
    let mut r: Vec<(FlowKey, FlowEntry)> = Vec::new();
    let mut i: usize = 0;
    assert(r@ =~= v@.subrange(0, 0));
    while i < v.len()
        invariant
            i <= v@.len(),
            by_bytes_desc(r@),
            r@.to_multiset() == v@.subrange(0, i as int).to_multiset(),
            r@ == sorted_by_bytes(v@.subrange(0, i as int)),
            r@.len() == i,
        decreases v@.len() - i,
    {
        let x = v[i];
        let mut p: usize = 0;
        while p < r.len() && r[p].1.bytes >= x.1.bytes
            invariant
                p <= r@.len(),
                forall|k: int| 0 <= k < p ==> r@[k].1.bytes >= x.1.bytes,
            decreases r@.len() - p,
        {
            p = p + 1;
        }
        let ghost before = r@;
        proof {
            lemma_bytes_insert_position(before, x, p as int);
            let sub = v@.subrange(0, i + 1);
            assert(sub.drop_last() =~= v@.subrange(0, i as int));
            assert(sub.last() == x);
        }
        r.insert(p, x);
        assert(by_bytes_desc(r@)) by {
            assert forall|a: int, b: int| 0 <= a < b < r@.len() implies r@[a].1.bytes
                >= r@[b].1.bytes by {
                if b < p {
                } else if b == p {
                } else if a < p {
                    assert(r@[b] == before[b - 1]);
                    if p < before.len() {
                        assert(before[p as int].1.bytes < x.1.bytes);
                        assert(before[p as int].1.bytes >= before[b - 1].1.bytes || b - 1 == p);
                    }
                } else if a == p {
                    assert(r@[b] == before[b - 1]);
                    assert(before[p as int].1.bytes < x.1.bytes);
                    assert(before[p as int].1.bytes >= before[b - 1].1.bytes || b - 1 == p);
                } else {
                    assert(r@[a] == before[a - 1]);
                    assert(r@[b] == before[b - 1]);
                }
            }
        }
        proof {
            vstd::seq_lib::to_multiset_insert(before, p as int, x);
            vstd::seq_lib::to_multiset_build(v@.subrange(0, i as int), x);
            assert(v@.subrange(0, i + 1) =~= v@.subrange(0, i as int).push(x));
        }
        i = i + 1;
    }
    assert(v@.subrange(0, v@.len() as int) =~= v@);
    r
}

} // verus!
