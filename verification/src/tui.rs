//! State and decisions of the terminal front end: counting received events,
//! keeping the newest packets, ordering the flow list, and moving the
//! selection.

use vstd::prelude::*;
use std::collections::VecDeque;
use crate::event::{NetworkEvent, Protocol};
use crate::filter::Filter;
use crate::flow::{
    FlowEntry, FlowKey, FlowTable, by_bytes_desc, lists_flows, can_record, event_key, recorded,
    slot_of, sort_by_bytes_desc, sorted_by_bytes, lemma_reordered_listing, update_flow,
};

verus! {

/// How many packets the packet list keeps.
pub const MAX_PACKET_LOG: usize = 200;

/// How many matching events one refresh takes in at most.
pub const TICK_BATCH: usize = 256;

/// Running totals over the events that passed the filter.
#[derive(Clone, Copy, Debug)]
pub struct Stats {
    pub total_pkts: u64,
    pub total_bytes: u64,
    pub tcp_pkts: u64,
    pub udp_pkts: u64,
    pub icmp_pkts: u64,
}

impl Default for Stats {
    fn default() -> (s: Stats)
        ensures
            s == (Stats { total_pkts: 0, total_bytes: 0, tcp_pkts: 0, udp_pkts: 0, icmp_pkts: 0 }),
    {
        Stats { total_pkts: 0, total_bytes: 0, tcp_pkts: 0, udp_pkts: 0, icmp_pkts: 0 }
    }
}

/// `x + 1` (within 64 bits when `x < u64::MAX`).
pub open spec fn inc(x: u64) -> u64 {
    (x + 1) as u64
}

/// `total + len` (within 64 bits when `can_add(total, len)`).
pub open spec fn plus_len(total: u64, len: u32) -> u64 {
    (total + len) as u64
}

pub open spec fn can_add(total: u64, len: u32) -> bool {
    total + len <= u64::MAX
}

fn add_len(total: u64, len: u32) -> (r: u64)
    requires
        can_add(total, len),
    ensures
        r == plus_len(total, len),
{
    total + len as u64
}

fn fits_len(total: u64, len: u32) -> (b: bool)
    ensures
        b == can_add(total, len),
{
    total <= u64::MAX - len as u64
}

impl Stats {
    /// The totals after counting `e`.
    pub open spec fn counted(self, e: NetworkEvent) -> Stats {
        Stats {
            total_pkts: inc(self.total_pkts),
            total_bytes: plus_len(self.total_bytes, e.pkt_len),
            tcp_pkts: if e.protocol is Tcp { inc(self.tcp_pkts) } else { self.tcp_pkts },
            udp_pkts: if e.protocol is Udp { inc(self.udp_pkts) } else { self.udp_pkts },
            icmp_pkts: match e.protocol {
                Protocol::Tcp => self.icmp_pkts,
                Protocol::Udp => self.icmp_pkts,
                Protocol::Unknown(_) => self.icmp_pkts,
                _ => inc(self.icmp_pkts),
            },
        }
    }

    /// Whether counting `e` keeps every total within 64 bits.
    pub open spec fn can_count(self, e: NetworkEvent) -> bool {
        &&& self.total_pkts < u64::MAX
        &&& can_add(self.total_bytes, e.pkt_len)
        &&& self.tcp_pkts < u64::MAX
        &&& self.udp_pkts < u64::MAX
        &&& self.icmp_pkts < u64::MAX
    }

    /// Whether counting `event` keeps every total within 64 bits.
    pub fn can_count_event(&self, event: &NetworkEvent) -> (b: bool)
        ensures
            b == self.can_count(*event),
    {
        self.total_pkts < u64::MAX && fits_len(self.total_bytes, event.pkt_len) && self.tcp_pkts
            < u64::MAX && self.udp_pkts < u64::MAX && self.icmp_pkts < u64::MAX
    }

    /// Counts one event.
    pub fn count(&mut self, event: &NetworkEvent)
        requires
            old(self).can_count(*event),
        ensures
            *final(self) == old(self).counted(*event),
    {
        self.total_pkts = self.total_pkts + 1;
        self.total_bytes = add_len(self.total_bytes, event.pkt_len);
        match event.protocol {
            Protocol::Tcp => {
                self.tcp_pkts = self.tcp_pkts + 1;
            },
            Protocol::Udp => {
                self.udp_pkts = self.udp_pkts + 1;
            },
            Protocol::Unknown(_) => {},
            _ => {
                self.icmp_pkts = self.icmp_pkts + 1;
            },
        }
    }
}

/// The per-protocol counters never add up to more than the total: counting
/// an event keeps them within it.
pub proof fn law_protocol_counts_within_total(s: Stats, e: NetworkEvent)
    requires
        s.can_count(e),
        s.tcp_pkts + s.udp_pkts + s.icmp_pkts <= s.total_pkts,
    ensures
        s.counted(e).tcp_pkts + s.counted(e).udp_pkts + s.counted(e).icmp_pkts
            <= s.counted(e).total_pkts,
        s.counted(e).total_pkts == s.total_pkts + 1,
        s.counted(e).total_bytes == s.total_bytes + e.pkt_len,
{
}

/// The packet list after `e` arrives: newest first, the oldest dropped when
/// the list is full.
pub open spec fn logged(log: Seq<NetworkEvent>, e: NetworkEvent) -> Seq<NetworkEvent> {
    seq![e] + (if log.len() >= MAX_PACKET_LOG { log.drop_last() } else { log })
}

/// A key press, as far as the packet view tells keys apart.
#[derive(Clone, Copy, Debug, PartialEq, Eq, Structural)]
pub enum Key {
    Down,
    Up,
    Char(char),
    Other,
}

/// The terminal front end's state.
pub struct App {
    pub should_quit: bool,
    pub filter: Filter,
    pub packet_log: VecDeque<NetworkEvent>,
    pub flow_snapshot: Vec<(FlowKey, FlowEntry)>,
    pub selected_row: usize,
    pub stats: Stats,
    pub interface: String,
    pub is_running: bool,
}

impl App {
    /// The packet list keeps at most `MAX_PACKET_LOG` packets, and the
    /// selection is the first row or a row of the list.
    pub open spec fn consistent(&self) -> bool {
        &&& self.packet_log@.len() <= MAX_PACKET_LOG
        &&& (self.selected_row == 0 || self.selected_row < self.packet_log@.len())
    }

    /// A fresh view of `interface`: empty lists, zero totals, an empty filter,
    /// the first row selected, running.
    pub fn new(interface: String) -> (a: App)
        ensures
            !a.should_quit,
            a.filter.spec_is_empty(),
            a.packet_log@.len() == 0,
            a.flow_snapshot@.len() == 0,
            a.selected_row == 0,
            a.stats == (Stats { total_pkts: 0, total_bytes: 0, tcp_pkts: 0, udp_pkts: 0, icmp_pkts: 0 }),
            a.interface == interface,
            a.is_running,
            a.consistent(),
    {
        App {
            should_quit: false,
            filter: Filter::default(),
            packet_log: VecDeque::with_capacity(MAX_PACKET_LOG),
            flow_snapshot: Vec::new(),
            selected_row: 0,
            stats: Stats::default(),
            interface,
            is_running: true,
        }
    }

    /// Takes in one received event during a refresh. An event that the filter
    /// rejects changes nothing. Otherwise it is counted in the totals and in
    /// its flow, put at the front of the packet list, and `count` grows by
    /// one. Returns whether the refresh should go on receiving: it stops once
    /// `TICK_BATCH` events have been taken in.
    pub fn ingest(&mut self, flows: &mut FlowTable, event: NetworkEvent, count: &mut usize) -> (more: bool)
        requires
            old(flows).wf(),
            *old(count) < usize::MAX,
            old(self).filter.spec_matches(event) ==> old(self).stats.can_count(event)
                && can_record(old(flows)@, event),
        ensures
            final(flows).wf(),
            old(self).consistent() ==> final(self).consistent(),
            final(self).filter == old(self).filter,
            final(self).flow_snapshot == old(self).flow_snapshot,
            final(self).selected_row == old(self).selected_row,
            final(self).interface == old(self).interface,
            final(self).should_quit == old(self).should_quit,
            final(self).is_running == old(self).is_running,
            if old(self).filter.spec_matches(event) {
                &&& final(self).stats == old(self).stats.counted(event)
                &&& final(self).packet_log@ == logged(old(self).packet_log@, event)
                &&& *final(count) == *old(count) + 1
                &&& exists|now: u64|
                    final(flows)@ == old(flows)@.insert(
                        slot_of(event_key(event).spec_normalized()),
                        #[trigger] recorded(old(flows)@, event, now),
                    )
                &&& more == (*final(count) < TICK_BATCH)
            } else {
                &&& final(self).stats == old(self).stats
                &&& final(self).packet_log@ == old(self).packet_log@
                &&& *final(count) == *old(count)
                &&& final(flows)@ == old(flows)@
                &&& more
            },
    {
        if !self.filter.matches(&event) {
            return true;
        }
        self.stats.count(&event);
        update_flow(flows, &event);
        if self.packet_log.len() >= MAX_PACKET_LOG {
            self.packet_log.pop_back();
        }
        self.packet_log.push_front(event);
        *count = *count + 1;
        *count < TICK_BATCH
    }

    /// Ends a refresh: the flow list becomes every tracked flow, by
    /// decreasing byte count.
    pub fn finish_tick(&mut self, flows: &FlowTable)
        requires
            flows.wf(),
        ensures
            by_bytes_desc(final(self).flow_snapshot@),
            lists_flows(final(self).flow_snapshot@, flows@),
            exists|listed: Seq<(FlowKey, FlowEntry)>|
                lists_flows(listed, flows@) && final(self).flow_snapshot@ == #[trigger] sorted_by_bytes(
                    listed,
                ),
            old(self).consistent() ==> final(self).consistent(),
            final(self).filter == old(self).filter,
            final(self).packet_log == old(self).packet_log,
            final(self).selected_row == old(self).selected_row,
            final(self).stats == old(self).stats,
            final(self).interface == old(self).interface,
            final(self).should_quit == old(self).should_quit,
            final(self).is_running == old(self).is_running,
    {
        let snap = flows.snapshot();
        let ghost listed = snap@;
        let sorted = sort_by_bytes_desc(snap);
        proof {
            lemma_reordered_listing(listed, sorted@, flows@);
        }
        self.flow_snapshot = sorted;
    }

    /// Moves the selection: down (`Down` or `j`, when the list is not empty)
    /// stops at the last packet, up (`Up` or `k`) stops at the first; `q`
    /// asks to quit; other keys do nothing.
    pub fn handle_key(&mut self, key: Key)
        requires
            (key == Key::Down || key == Key::Char('j')) && old(self).packet_log@.len() > 0
                ==> old(self).selected_row < usize::MAX,
        ensures
            final(self).selected_row == (if (key == Key::Down || key == Key::Char('j'))
                && old(self).packet_log@.len() > 0 {
                if old(self).selected_row + 1 < old(self).packet_log@.len() - 1 {
                    (old(self).selected_row + 1) as usize
                } else {
                    (old(self).packet_log@.len() - 1) as usize
                }
            } else if key == Key::Up || key == Key::Char('k') {
                if old(self).selected_row > 0 {
                    (old(self).selected_row - 1) as usize
                } else {
                    0
                }
            } else {
                old(self).selected_row
            }),
            final(self).should_quit == (old(self).should_quit || (key == Key::Char('q') && !((key
                == Key::Down || key == Key::Char('j')) && old(self).packet_log@.len() > 0))),
            old(self).consistent() ==> final(self).consistent(),
            final(self).packet_log == old(self).packet_log,
            final(self).flow_snapshot == old(self).flow_snapshot,
            final(self).stats == old(self).stats,
            final(self).filter == old(self).filter,
            final(self).interface == old(self).interface,
            final(self).is_running == old(self).is_running,
    {
        let down = key == Key::Down || key == Key::Char('j');
        let up = key == Key::Up || key == Key::Char('k');
        if down && self.packet_log.len() > 0 {
            let last = self.packet_log.len() - 1;
            let next = self.selected_row + 1;
            self.selected_row = if next < last { next } else { last };
        } else if up {
            self.selected_row = if self.selected_row > 0 { self.selected_row - 1 } else { 0 };
        } else if key == Key::Char('q') {
            self.should_quit = true;
        }
    }
}

} // verus!
