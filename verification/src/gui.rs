//! State and text of the desktop front end: the event log, the flow list
//! ordered by traffic, and the status line.

use vstd::prelude::*;
use std::collections::VecDeque;
use crate::event::{NetworkEvent, protocol_label};
use crate::filter::Filter;
use crate::flow::{
    FlowEntry, FlowKey, FlowTable, by_bytes_desc, can_record, event_key, lists_flows, recorded,
    slot_of, sort_by_bytes_desc, sorted_by_bytes, lemma_reordered_listing, update_flow,
};
use crate::text::{decimal, push_char, push_decimal, push_str};
use crate::tui_view::{socket_string, socket_text};
use crate::units::{human_bytes, human_bytes_text};

verus! {

/// How many events the event log keeps.
pub const MAX_EVENT_LOG: usize = 1000;

/// How many received events one refresh takes in at most.
pub const GUI_TICK_BATCH: usize = 512;

/// The event log after `e` arrives: oldest first, the oldest dropped when
/// the log is full.
pub open spec fn appended(log: Seq<NetworkEvent>, e: NetworkEvent) -> Seq<NetworkEvent> {
    (if log.len() >= MAX_EVENT_LOG { log.drop_first() } else { log }).push(e)
}

/// The desktop front end's state.
pub struct KamikiApp {
    pub filter: Filter,
    pub event_log: VecDeque<NetworkEvent>,
    pub flow_snapshot: Vec<(FlowKey, FlowEntry)>,
    pub selected_flow: Option<usize>,
    pub status: String,
}

/// `Flows: <n>   Events captured: <m>`.
pub open spec fn status_text(flows: nat, events: nat) -> Seq<char> {
    "Flows: "@ + decimal(flows) + "   Events captured: "@ + decimal(events)
}

impl KamikiApp {
    /// The event log keeps at most `MAX_EVENT_LOG` events.
    pub open spec fn consistent(&self) -> bool {
        self.event_log@.len() <= MAX_EVENT_LOG
    }

    /// An empty view with an empty filter, waiting for events.
    pub fn new() -> (a: KamikiApp)
        ensures
            a.filter.spec_is_empty(),
            a.event_log@.len() == 0,
            a.flow_snapshot@.len() == 0,
            a.selected_flow is None,
            a.status@ == "Ready - waiting for events"@,
            a.consistent(),
    {
        let mut status = String::new();
        push_str(&mut status, "Ready - waiting for events");
        KamikiApp {
            filter: Filter::default(),
            event_log: VecDeque::with_capacity(MAX_EVENT_LOG),
            flow_snapshot: Vec::new(),
            selected_flow: None,
            status,
        }
    }

    /// Takes in one received event during a refresh: a matching event is
    /// counted in its flow and appended to the log. Every received event
    /// counts towards the batch; returns whether the refresh should go on.
    pub fn ingest(&mut self, flows: &mut FlowTable, event: NetworkEvent, count: &mut usize) -> (more: bool)
        requires
            old(flows).wf(),
            *old(count) < usize::MAX,
            old(self).filter.spec_matches(event) ==> can_record(old(flows)@, event),
        ensures
            final(flows).wf(),
            old(self).consistent() ==> final(self).consistent(),
            *final(count) == *old(count) + 1,
            more == (*final(count) < GUI_TICK_BATCH),
            final(self).filter == old(self).filter,
            final(self).flow_snapshot == old(self).flow_snapshot,
            final(self).selected_flow == old(self).selected_flow,
            final(self).status == old(self).status,
            if old(self).filter.spec_matches(event) {
                &&& final(self).event_log@ == appended(old(self).event_log@, event)
                &&& exists|now: u64|
                    final(flows)@ == old(flows)@.insert(
                        slot_of(event_key(event).spec_normalized()),
                        #[trigger] recorded(old(flows)@, event, now),
                    )
            } else {
                &&& final(self).event_log@ == old(self).event_log@
                &&& final(flows)@ == old(flows)@
            },
    {
        if self.filter.matches(&event) {
            update_flow(flows, &event);
            if self.event_log.len() >= MAX_EVENT_LOG {
                self.event_log.pop_front();
            }
            self.event_log.push_back(event);
        }
        *count = *count + 1;
        *count < GUI_TICK_BATCH
    }

    /// Ends a refresh: the flow list becomes every tracked flow by
    /// decreasing byte count, and the status line counts flows and logged
    /// events.
    pub fn finish_tick(&mut self, flows: &FlowTable)
        requires
            flows.wf(),
        ensures
            by_bytes_desc(final(self).flow_snapshot@),
            lists_flows(final(self).flow_snapshot@, flows@),
            exists|listed: Seq<(FlowKey, FlowEntry)>|
                lists_flows(listed, flows@) && final(self).flow_snapshot@ == #[trigger] sorted_by_bytes(
                    listed,
                ),
            final(self).status@ == status_text(
                flows@.dom().len(),
                old(self).event_log@.len(),
            ),
            old(self).consistent() ==> final(self).consistent(),
            final(self).filter == old(self).filter,
            final(self).event_log == old(self).event_log,
            final(self).selected_flow == old(self).selected_flow,
    {
        let snap = flows.snapshot();
        let ghost listed = snap@;
        let sorted = sort_by_bytes_desc(snap);
        proof {
            lemma_reordered_listing(listed, sorted@, flows@);
        }
        let n = sorted.len();
        self.flow_snapshot = sorted;
        let mut status = String::new();
        push_str(&mut status, "Flows: ");
        push_decimal(&mut status, n as u64);
        push_str(&mut status, "   Events captured: ");
        push_decimal(&mut status, self.event_log.len() as u64);
        self.status = status;
    }

    /// Marks the flow at `row` of the flow list as selected.
    pub fn select_flow(&mut self, row: usize)
        ensures
            final(self).selected_flow == Some(row),
            old(self).consistent() ==> final(self).consistent(),
            final(self).filter == old(self).filter,
            final(self).event_log == old(self).event_log,
            final(self).flow_snapshot == old(self).flow_snapshot,
            final(self).status == old(self).status,
    {
        self.selected_flow = Some(row);
    }
}

/// One line of the event log:
/// `<proto> <src>:<port> → <dst>:<port>  <len> B`.
pub open spec fn event_line_text(ev: NetworkEvent) -> Seq<char> {
    protocol_label(ev.protocol) + seq![' '] + socket_text(ev.src_ip, ev.src_port) + seq![
        ' ',
        '→',
        ' ',
    ] + socket_text(ev.dst_ip, ev.dst_port) + seq![' ', ' '] + decimal(ev.pkt_len as nat) + seq![
        ' ',
        'B',
    ]
}

/// One line of the event log.
pub fn event_line(ev: &NetworkEvent) -> (s: String)
    ensures
        s@ == event_line_text(*ev),
{
    let mut s = ev.protocol.to_string();
    push_char(&mut s, ' ');
    push_str(&mut s, socket_string(ev.src_ip, ev.src_port).as_str());
    push_char(&mut s, ' ');
    push_char(&mut s, '→');
    push_char(&mut s, ' ');
    push_str(&mut s, socket_string(ev.dst_ip, ev.dst_port).as_str());
    push_char(&mut s, ' ');
    push_char(&mut s, ' ');
    push_decimal(&mut s, ev.pkt_len as u64);
    push_char(&mut s, ' ');
    push_char(&mut s, 'B');
    assert(s@ =~= event_line_text(*ev));
    s
}

/// How many events the event panel shows.
pub const SHOWN_EVENTS: usize = 200;

/// The events the event panel shows: the newest first, at most
/// `SHOWN_EVENTS` of them.
pub open spec fn recent_events(log: Seq<NetworkEvent>) -> Seq<NetworkEvent> {
    let n: int = if log.len() < SHOWN_EVENTS { log.len() as int } else { SHOWN_EVENTS as int };
    Seq::new(n as nat, |i: int| log[log.len() - 1 - i])
}

impl KamikiApp {
    /// The lines of the event panel, newest event first.
    pub fn recent_event_lines(&self) -> (lines: Vec<String>)
        ensures
            lines@.len() == recent_events(self.event_log@).len(),
            forall|i: int|
                0 <= i < lines@.len() ==> #[trigger] lines@[i]@ == event_line_text(
                    recent_events(self.event_log@)[i],
                ),
    {
        let n = self.event_log.len();
        let shown = if n < SHOWN_EVENTS { n } else { SHOWN_EVENTS };
        let mut lines: Vec<String> = Vec::new();
        let mut i: usize = 0;
        while i < shown
            invariant
                n == self.event_log@.len(),
                shown == recent_events(self.event_log@).len(),
                shown <= n,
                i <= shown,
                lines@.len() == i,
                forall|k: int|
                    0 <= k < i ==> #[trigger] lines@[k]@ == event_line_text(
                        recent_events(self.event_log@)[k],
                    ),
            decreases shown - i,
        {
            let line = event_line(&self.event_log[n - 1 - i]);
            lines.push(line);
            i = i + 1;
        }
        lines
    }
}

/// The cells of one row of the flow table: process (not resolved yet, so a
/// dash), source, destination, protocol, packets, bytes.
pub fn flow_cells(key: &FlowKey, entry: &FlowEntry) -> (cells: Vec<String>)
    ensures
        cells@.len() == 6,
        cells@[0]@ == seq!['—'],
        cells@[1]@ == socket_text(key.src_ip, key.src_port),
        cells@[2]@ == socket_text(key.dst_ip, key.dst_port),
        cells@[3]@ == protocol_label(key.protocol),
        cells@[4]@ == decimal(entry.packets as nat),
        cells@[5]@ == human_bytes_text(entry.bytes),
{
    let mut cells: Vec<String> = Vec::new();
    let mut dash = String::new();
    push_char(&mut dash, '—');
    cells.push(dash);
    cells.push(socket_string(key.src_ip, key.src_port));
    cells.push(socket_string(key.dst_ip, key.dst_port));
    cells.push(key.protocol.to_string());
    let mut packets = String::new();
    push_decimal(&mut packets, entry.packets);
    cells.push(packets);
    cells.push(human_bytes(entry.bytes));
    cells
}

} // verus!
