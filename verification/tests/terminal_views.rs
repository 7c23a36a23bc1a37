use kamiki::event::{Ipv4Addr, NetworkEvent, Protocol, Timestamp};
use kamiki::flow::{update_flow_at, FlowEntry, FlowKey, FlowTable};
use kamiki::gui::{event_line, flow_cells, KamikiApp, GUI_TICK_BATCH, MAX_EVENT_LOG, SHOWN_EVENTS};
use kamiki::tui::{App, Key, Stats, MAX_PACKET_LOG, TICK_BATCH};
use kamiki::tui_view::{
    cli_header, cli_row, cli_rule, endpoint_string, interface_field, packet_row, running_label,
    socket_string, stats_lines,
};
use kamiki::units::{decimal_bytes, double_of, fmt_bytes, fmt_num, human_bytes};

const HOST: u32 = 0xC0A8_0104; // 192.168.1.4
const SERVER: u32 = 0x0A00_0001; // 10.0.0.1

fn event(src: u32, dst: u32, sport: u16, dport: u16, protocol: Protocol, len: u32) -> NetworkEvent {
    NetworkEvent {
        src_ip: Ipv4Addr(src),
        dst_ip: Ipv4Addr(dst),
        src_port: sport,
        dst_port: dport,
        protocol,
        pkt_len: len,
        timestamp: Timestamp { secs: 0, nanos: 0, before_epoch: false },
        process: None,
    }
}

fn tcp(len: u32) -> NetworkEvent {
    event(SERVER, HOST, 443, 51000, Protocol::Tcp, len)
}

#[test]
fn counts_group_thousands() {
    assert_eq!(fmt_num(0), "0");
    assert_eq!(fmt_num(999), "999");
    assert_eq!(fmt_num(1000), "1,000");
    assert_eq!(fmt_num(12548), "12,548");
    assert_eq!(fmt_num(1234567), "1,234,567");
    assert_eq!(fmt_num(u64::MAX), "18,446,744,073,709,551,615");
}

#[test]
fn grouped_counts_read_back_without_separators() {
    for n in [0u64, 7, 999, 1000, 65536, 1234567, u64::MAX] {
        assert_eq!(fmt_num(n).replace(',', ""), n.to_string());
    }
}

#[test]
fn byte_counts_for_the_statistics_panel() {
    assert_eq!(fmt_bytes(0), "0 B");
    assert_eq!(fmt_bytes(1023), "1023 B");
    assert_eq!(fmt_bytes(1024), "1.0 KB");
    assert_eq!(fmt_bytes(1536), "1.5 KB");
    assert_eq!(fmt_bytes(1280), "1.2 KB");
    assert_eq!(fmt_bytes(1048575), "1024.0 KB");
    assert_eq!(fmt_bytes(1048576), "1.0 MB");
    assert_eq!(fmt_bytes(1073741824), "1.00 GB");
    assert_eq!(fmt_bytes(1610612736), "1.50 GB");
}

#[test]
fn byte_counts_for_the_flow_table() {
    assert_eq!(human_bytes(512), "512 B");
    assert_eq!(human_bytes(2048), "2.0 KB");
    assert_eq!(human_bytes(5 * 1048576), "5.0 MB");
    assert_eq!(human_bytes(3 * 1073741824), "3072.0 MB");
}

#[test]
fn byte_counts_in_decimal_multiples() {
    assert_eq!(decimal_bytes(0), "0 B");
    assert_eq!(decimal_bytes(1000), "1000 B");
    assert_eq!(decimal_bytes(1001), "1.0 KB");
    assert_eq!(decimal_bytes(1050), format!("{:.1} KB", 1050f64 / 1000.0));
    assert_eq!(decimal_bytes(1050), "1.1 KB");
    assert_eq!(decimal_bytes(1150), "1.1 KB");
    assert_eq!(decimal_bytes(1250), "1.2 KB");
    assert_eq!(decimal_bytes(1_000_000), "1000.0 KB");
    assert_eq!(decimal_bytes(2_500_000), "2.5 MB");
    assert_eq!(decimal_bytes(24_800_000), "24.8 MB");
    for b in [1001u64, 1049, 1350, 999_999, 1_000_001, 1_050_000, 123_456_789, u64::MAX] {
        let expected = if b > 1_000_000 {
            format!("{:.1} MB", b as f64 / 1_000_000.0)
        } else {
            format!("{:.1} KB", b as f64 / 1_000.0)
        };
        assert_eq!(decimal_bytes(b), expected);
    }
}

#[test]
fn binary_byte_counts_agree_with_float_formatting() {
    for b in [1024u64, 1280, 1536, 1_048_575, 3_000_000, 1_073_741_823] {
        assert_eq!(human_bytes(b), if b < 1_048_576 {
            format!("{:.1} KB", b as f64 / 1024.0)
        } else {
            format!("{:.1} MB", b as f64 / 1_048_576.0)
        });
    }
    for b in [1_073_741_824u64, 1_610_612_736, 5_000_000_000_000, u64::MAX] {
        assert_eq!(fmt_bytes(b), format!("{:.2} GB", b as f64 / 1_073_741_824.0));
    }
}

#[test]
fn doubles_round_to_fifty_three_bits() {
    assert_eq!(double_of(0), 0);
    assert_eq!(double_of(12345), 12345);
    assert_eq!(double_of(u64::MAX), 18446744073709551616u128);
    assert_eq!(double_of((1u64 << 53) + 1), 1u128 << 53);
    assert_eq!(double_of((1u64 << 53) + 3), (1u128 << 53) + 4);
}

#[test]
fn sockets_and_endpoints() {
    assert_eq!(socket_string(Ipv4Addr(SERVER), 443), "10.0.0.1:443");
    assert_eq!(endpoint_string(Ipv4Addr(SERVER), 443, Protocol::Tcp), "10.0.0.1:443");
    assert_eq!(endpoint_string(Ipv4Addr(SERVER), 0, Protocol::Icmp), "10.0.0.1");
    assert_eq!(endpoint_string(Ipv4Addr(SERVER), 7, Protocol::Unknown(47)), "10.0.0.1:7");
}

#[test]
fn packet_table_rows() {
    let r = packet_row(&tcp(1500));
    assert_eq!(r.proto, "TCP");
    assert_eq!(r.src, "10.0.0.1:443");
    assert_eq!(r.dst, "192.168.1.4:51000");
    assert_eq!(r.size, "1500 B");
    let ping = packet_row(&event(HOST, SERVER, 0, 0, Protocol::Icmp, 84));
    assert_eq!(ping.proto, "ICMP");
    assert_eq!(ping.src, "192.168.1.4");
    assert_eq!(ping.dst, "10.0.0.1");
    assert_eq!(ping.size, "84 B");
}

#[test]
fn statistics_panel_lines() {
    let s = Stats { total_pkts: 12548, total_bytes: 1536, tcp_pkts: 1000, udp_pkts: 2, icmp_pkts: 0 };
    let lines = stats_lines(&s);
    assert_eq!(lines.len(), 5);
    assert_eq!(lines[0], " Total Packets : 12,548");
    assert_eq!(lines[1], " Total Bytes   : 1.5 KB");
    assert_eq!(lines[2], " TCP           : 1,000");
    assert_eq!(lines[3], " UDP           : 2");
    assert_eq!(lines[4], " ICMP          : 0");
}

#[test]
fn information_panel_fields() {
    assert_eq!(interface_field("eth0"), format!(" Interface : {:<20}", "eth0"));
    assert_eq!(interface_field("a-very-long-interface-name"), " Interface : a-very-long-interface-name");
    assert_eq!(running_label(true), "RUNNING");
    assert_eq!(running_label(false), "STOPPED");
}

#[test]
fn command_line_listing() {
    assert_eq!(cli_header(), format!("{:<20} {:<20} {:<8} BYTES", "SRC", "DST", "PROTO"));
    assert_eq!(cli_rule(), "-".repeat(60));
    assert_eq!(
        cli_row(&tcp(1500)),
        format!("{:<20} {:<20} {} {}", "10.0.0.1:443", "192.168.1.4:51000", "TCP", 1500)
    );
}

#[test]
fn statistics_count_by_protocol() {
    let mut s = Stats::default();
    assert!(s.can_count_event(&tcp(10)));
    s.count(&tcp(10));
    s.count(&event(HOST, SERVER, 1, 53, Protocol::Udp, 20));
    s.count(&event(HOST, SERVER, 0, 0, Protocol::Icmp, 30));
    s.count(&event(HOST, SERVER, 0, 0, Protocol::Unknown(47), 40));
    assert_eq!(s.total_pkts, 4);
    assert_eq!(s.total_bytes, 100);
    assert_eq!(s.tcp_pkts, 1);
    assert_eq!(s.udp_pkts, 1);
    assert_eq!(s.icmp_pkts, 1);
    assert!(s.tcp_pkts + s.udp_pkts + s.icmp_pkts <= s.total_pkts);
    let full = Stats { total_pkts: u64::MAX, total_bytes: 0, tcp_pkts: 0, udp_pkts: 0, icmp_pkts: 0 };
    assert!(!full.can_count_event(&tcp(1)));
}

#[test]
fn terminal_view_starts_empty() {
    let app = App::new("eth0".to_string());
    assert!(!app.should_quit);
    assert!(app.is_running);
    assert!(app.filter.is_empty());
    assert!(app.packet_log.is_empty());
    assert!(app.flow_snapshot.is_empty());
    assert_eq!(app.selected_row, 0);
    assert_eq!(app.stats.total_pkts, 0);
    assert_eq!(app.interface, "eth0");
}

#[test]
fn terminal_view_takes_in_events() {
    let mut app = App::new("eth0".to_string());
    let mut flows = FlowTable::new();
    let mut count = 0usize;
    assert!(app.ingest(&mut flows, tcp(100), &mut count));
    assert!(app.ingest(&mut flows, event(HOST, SERVER, 51000, 443, Protocol::Tcp, 40), &mut count));
    assert_eq!(count, 2);
    assert_eq!(app.stats.total_pkts, 2);
    assert_eq!(app.stats.total_bytes, 140);
    assert_eq!(app.stats.tcp_pkts, 2);
    assert_eq!(app.packet_log.len(), 2);
    assert_eq!(app.packet_log[0].pkt_len, 40);
    assert_eq!(app.packet_log[1].pkt_len, 100);
    assert_eq!(flows.len(), 1);

    app.filter.protocol = Some(Protocol::Udp);
    assert!(app.ingest(&mut flows, tcp(7), &mut count));
    assert_eq!(count, 2);
    assert_eq!(app.stats.total_pkts, 2);
    assert_eq!(app.packet_log.len(), 2);
}

#[test]
fn terminal_view_batches_and_caps_the_log() {
    let mut app = App::new("eth0".to_string());
    let mut flows = FlowTable::new();
    let mut count = 0usize;
    let mut more = true;
    let mut taken = 0usize;
    while more {
        more = app.ingest(&mut flows, tcp(taken as u32), &mut count);
        taken += 1;
    }
    assert_eq!(taken, TICK_BATCH);
    assert_eq!(app.packet_log.len(), MAX_PACKET_LOG);
    assert_eq!(app.packet_log[0].pkt_len, (TICK_BATCH - 1) as u32);
    assert_eq!(app.packet_log[MAX_PACKET_LOG - 1].pkt_len, (TICK_BATCH - MAX_PACKET_LOG) as u32);
}

#[test]
fn terminal_view_lists_flows_by_traffic() {
    let mut app = App::new("eth0".to_string());
    let mut flows = FlowTable::new();
    update_flow_at(&mut flows, &event(HOST, SERVER, 1, 80, Protocol::Tcp, 10), 1);
    update_flow_at(&mut flows, &event(HOST, SERVER, 2, 80, Protocol::Tcp, 300), 2);
    update_flow_at(&mut flows, &event(HOST, SERVER, 3, 80, Protocol::Tcp, 20), 3);
    app.finish_tick(&flows);
    let bytes: Vec<u64> = app.flow_snapshot.iter().map(|(_, e)| e.bytes).collect();
    assert_eq!(bytes, vec![300, 20, 10]);
}

#[test]
fn selection_moves_within_the_log() {
    let mut app = App::new("eth0".to_string());
    app.handle_key(Key::Down);
    assert_eq!(app.selected_row, 0);
    let mut flows = FlowTable::new();
    let mut count = 0usize;
    for len in [1u32, 2, 3] {
        app.ingest(&mut flows, tcp(len), &mut count);
    }
    app.handle_key(Key::Down);
    assert_eq!(app.selected_row, 1);
    app.handle_key(Key::Char('j'));
    assert_eq!(app.selected_row, 2);
    app.handle_key(Key::Down);
    assert_eq!(app.selected_row, 2);
    app.handle_key(Key::Up);
    app.handle_key(Key::Char('k'));
    app.handle_key(Key::Up);
    assert_eq!(app.selected_row, 0);
    app.handle_key(Key::Other);
    assert!(!app.should_quit);
    app.handle_key(Key::Char('q'));
    assert!(app.should_quit);
}

#[test]
fn desktop_view_starts_waiting() {
    let app = KamikiApp::new();
    assert_eq!(app.status, "Ready - waiting for events");
    assert!(app.event_log.is_empty());
    assert!(app.selected_flow.is_none());
    assert!(app.filter.is_empty());
}

#[test]
fn desktop_view_refresh() {
    let mut app = KamikiApp::new();
    let mut flows = FlowTable::new();
    let mut count = 0usize;
    assert!(app.ingest(&mut flows, tcp(100), &mut count));
    assert!(app.ingest(&mut flows, event(HOST, SERVER, 5, 53, Protocol::Udp, 60), &mut count));
    app.filter.protocol = Some(Protocol::Tcp);
    assert!(app.ingest(&mut flows, event(HOST, SERVER, 5, 53, Protocol::Udp, 60), &mut count));
    assert_eq!(count, 3);
    assert_eq!(app.event_log.len(), 2);
    app.finish_tick(&flows);
    assert_eq!(app.status, "Flows: 2   Events captured: 2");
    assert_eq!(app.flow_snapshot[0].1.bytes, 100);
    app.select_flow(1);
    assert_eq!(app.selected_flow, Some(1));
}

#[test]
fn desktop_view_log_is_capped_and_batched() {
    let mut app = KamikiApp::new();
    let mut flows = FlowTable::new();
    let mut total = 0usize;
    for round in 0..3 {
        let mut count = 0usize;
        let mut more = true;
        while more {
            more = app.ingest(&mut flows, tcp(round), &mut count);
            total += 1;
        }
        assert_eq!(count, GUI_TICK_BATCH);
    }
    assert_eq!(total, 3 * GUI_TICK_BATCH);
    assert_eq!(app.event_log.len(), MAX_EVENT_LOG);
    assert_eq!(app.event_log[MAX_EVENT_LOG - 1].pkt_len, 2);
}

#[test]
fn desktop_view_event_lines() {
    assert_eq!(event_line(&tcp(1500)), "TCP 10.0.0.1:443 → 192.168.1.4:51000  1500 B");
    let mut app = KamikiApp::new();
    let mut flows = FlowTable::new();
    let mut count = 0usize;
    for len in 0..(SHOWN_EVENTS as u32 + 5) {
        app.ingest(&mut flows, tcp(len), &mut count);
    }
    let lines = app.recent_event_lines();
    assert_eq!(lines.len(), SHOWN_EVENTS);
    assert_eq!(lines[0], event_line(&tcp(SHOWN_EVENTS as u32 + 4)));
    assert_eq!(lines[SHOWN_EVENTS - 1], event_line(&tcp(5)));
}

#[test]
fn desktop_view_flow_cells() {
    let k = FlowKey {
        src_ip: Ipv4Addr(SERVER),
        dst_ip: Ipv4Addr(HOST),
        src_port: 443,
        dst_port: 51000,
        protocol: Protocol::Tcp,
    };
    let e = FlowEntry { key: k, first_seen: 0, last_seen: 0, packets: 31, bytes: 24576 };
    let cells = flow_cells(&k, &e);
    assert_eq!(cells, vec!["—", "10.0.0.1:443", "192.168.1.4:51000", "TCP", "31", "24.0 KB"]);
}

#[test]
fn grouped_counts_have_groups_of_three() {
    for n in [0u64, 12, 999, 1000, 12548, 1234567, u64::MAX] {
        let s = fmt_num(n);
        let groups: Vec<&str> = s.split(',').collect();
        assert!((1..=3).contains(&groups[0].len()));
        assert!(groups[1..].iter().all(|g| g.len() == 3));
        assert!(s.chars().all(|c| c == ',' || c.is_ascii_digit()));
    }
}
