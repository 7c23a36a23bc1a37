use kamiki::event::{Ipv4Addr, NetworkEvent, Protocol, Timestamp};
use kamiki::flow::{FlowEntry, FlowKey};
use kamiki::icons::{
    desktop_entry_path, desktop_icon_names, icon_candidate_names, icon_files, icon_lookup_name,
};
use kamiki::process::ProcessInfo;
use kamiki::web_api;
use kamiki::web_dummy;
use kamiki::web_models::{CaptureState, InterfaceInfo, PacketEvent, SystemStats};
use kamiki::web_server;
use kamiki::web_tables::{packet_visible, top_processes, visible_packets, TOP_PROCESSES};
use kamiki::web_ui::{
    apply_poll, ascii_line, chart_peak, choose_capture_interface, client_step, count_labeled,
    counts_total, note_refresh, record_start, ClientStep, REFRESH_EVERY,
    direction_label, header_bytes, hex_line, initial_history, initial_protocol_counts,
    mock_traffic_sample, packet_info, push_sample, selected_packet, status_interface,
    status_kernel, tally_protocols, HISTORY_LEN, MAX_CLIENT_PACKETS,
};

const HOST: u32 = 0xC0A8_0104; // 192.168.1.4
const SERVER: u32 = 0x0A00_0001; // 10.0.0.1

fn pkt(name: &str, pid: u32, src: &str, sport: u16, dst: &str, dport: u16, proto: &str, len: u32) -> PacketEvent {
    PacketEvent {
        src_ip: src.to_string(),
        dst_ip: dst.to_string(),
        src_port: sport,
        dst_port: dport,
        protocol: proto.to_string(),
        pkt_len: len,
        timestamp: "14:35:21.123".to_string(),
        process_name: name.to_string(),
        pid,
    }
}

fn sample_feed() -> Vec<PacketEvent> {
    vec![
        pkt("firefox", 8421, "192.168.1.4", 49231, "142.250.74.206", 443, "TCP", 1448),
        pkt("systemd-resolve", 1452, "192.168.1.4", 53, "1.1.1.1", 53, "UDP", 78),
        pkt("ssh", 2231, "192.168.1.4", 54222, "192.168.1.10", 22, "TCP", 512),
        pkt("ping", 0, "192.168.1.4", 0, "8.8.8.8", 0, "ICMP", 84),
    ]
}

fn event(src: u32, dst: u32, sport: u16, dport: u16, protocol: Protocol, len: u32) -> NetworkEvent {
    NetworkEvent {
        src_ip: Ipv4Addr(src),
        dst_ip: Ipv4Addr(dst),
        src_port: sport,
        dst_port: dport,
        protocol,
        pkt_len: len,
        timestamp: Timestamp { secs: 3600 * 25 + 61, nanos: 5_000_000, before_epoch: false },
        process: None,
    }
}

fn flow(bytes: u64, packets: u64, port: u16) -> (FlowKey, FlowEntry) {
    let k = FlowKey {
        src_ip: Ipv4Addr(SERVER),
        dst_ip: Ipv4Addr(HOST),
        src_port: port,
        dst_port: 51000,
        protocol: Protocol::Tcp,
    };
    (k, FlowEntry { key: k, first_seen: 0, last_seen: 0, packets, bytes })
}

#[test]
fn start_request_body_names_the_interface() {
    assert_eq!(web_api::interface_from_body("  \"eth0\"\n"), "eth0");
    assert_eq!(web_api::interface_from_body("wlan0"), "wlan0");
    assert_eq!(web_api::started_message("eth0"), "Started eBPF capture on eth0");
    assert_eq!(
        web_api::start_failed_message("interface not found: eth9"),
        "Failed to start Kamiki engine: interface not found: eth9"
    );
}

#[test]
fn unknown_processes_are_attributed_by_port() {
    let dash = "—".to_string();
    assert_eq!(web_api::attribute_process(dash.clone(), 0, 443, 51000), ("firefox".to_string(), 8421));
    assert_eq!(web_api::attribute_process(dash.clone(), 0, 0, 80), ("firefox".to_string(), 8421));
    assert_eq!(web_api::attribute_process(dash.clone(), 0, 0, 22), ("ssh".to_string(), 2231));
    assert_eq!(web_api::attribute_process(dash.clone(), 0, 53, 9), ("systemd-resolve".to_string(), 1452));
    assert_eq!(web_api::attribute_process(dash.clone(), 0, 3000, 1), ("curl".to_string(), 9912));
    assert_eq!(web_api::attribute_process(dash.clone(), 0, 1000, 1), ("discord".to_string(), 9122));
    assert_eq!(web_api::attribute_process(dash.clone(), 0, 9, 1), ("spotify".to_string(), 7721));
    assert_eq!(web_api::attribute_process(dash.clone(), 0, 7, 1), (dash.clone(), 0));
    assert_eq!(web_api::attribute_process("nginx".to_string(), 77, 443, 1), ("nginx".to_string(), 77));
}

#[test]
fn time_of_day_in_utc() {
    assert_eq!(web_api::time_of_day(Timestamp { secs: 3600 * 25 + 61, nanos: 5_000_000, before_epoch: false }), "01:01:01.005");
    assert_eq!(web_api::time_of_day(Timestamp { secs: 0, nanos: 999_999_999, before_epoch: false }), "00:00:00.999");
    assert_eq!(web_api::time_of_day(Timestamp { secs: 86399, nanos: 120_000_000, before_epoch: false }), "23:59:59.120");
}

#[test]
fn events_are_listed_for_the_api() {
    let e = event(SERVER, HOST, 443, 51000, Protocol::Tcp, 1500);
    let p = web_api::packet_event_of(&e);
    assert_eq!(p.src_ip, "10.0.0.1");
    assert_eq!(p.dst_ip, "192.168.1.4");
    assert_eq!(p.protocol, "TCP");
    assert_eq!(p.pkt_len, 1500);
    assert_eq!(p.timestamp, "01:01:01.005");
    assert_eq!(p.process_name, "firefox");
    assert_eq!(p.pid, 8421);

    let mut known = event(HOST, SERVER, 5555, 7, Protocol::Udp, 60);
    known.process = Some(ProcessInfo { pid: 42, tgid: 42, uid: 0, comm: "dig".to_string() });
    let q = web_api::packet_event_of(&known);
    assert_eq!(q.process_name, "dig");
    assert_eq!(q.pid, 42);
}

#[test]
fn a_poll_takes_at_least_one_packet() {
    let e = event(SERVER, HOST, 443, 51000, Protocol::Tcp, 1500);
    let mut batch = Vec::new();
    assert!(!web_api::add_to_batch(&mut batch, &e, 0));
    assert_eq!(batch.len(), 1);
    let mut two = Vec::new();
    assert!(web_api::add_to_batch(&mut two, &e, 2));
    assert!(!web_api::add_to_batch(&mut two, &e, 2));
    assert_eq!(two.len(), 2);
}

#[test]
fn flows_and_totals_for_the_api() {
    let (_, e) = flow(100, 4, 443);
    let f = web_api::flow_data_of(&e);
    assert_eq!(f.src_ip, "10.0.0.1");
    assert_eq!(f.src_port, 443);
    assert_eq!(f.protocol, "TCP");
    assert_eq!(f.packets, 4);
    assert_eq!(f.bytes, 100);
    assert_eq!(f.sent_bytes, 33);
    assert_eq!(f.recv_bytes, 67);

    let flows = vec![flow(100, 4, 443), flow(200, 1, 80)];
    assert_eq!(web_api::flow_totals(&flows), Some((5, 300)));
    assert_eq!(web_api::flow_totals(&Vec::new()), Some((0, 0)));
    let huge = vec![flow(u64::MAX, 1, 443), flow(1, 1, 80)];
    assert_eq!(web_api::flow_totals(&huge), None);

    let s = web_api::system_stats(&flows, 2, "eth0".to_string(), "Linux version 6.8".to_string());
    assert_eq!(s.total_pkts, 5);
    assert_eq!(s.total_bytes, 300);
    assert_eq!(s.sent_bytes, 100);
    assert_eq!(s.recv_bytes, 200);
    assert_eq!(s.active_flows, 2);
    assert_eq!(s.interface, "eth0");
}

#[test]
fn kernel_description_is_three_words() {
    assert_eq!(
        web_api::kernel_summary("Linux version 6.8.0-arch1-1 (linux@archlinux) #1 SMP\n"),
        "Linux version 6.8.0-arch1-1"
    );
    assert_eq!(web_api::kernel_summary("  Linux \t x "), "Linux x");
    assert_eq!(web_api::kernel_summary(""), "");
}

#[test]
fn link_speeds() {
    assert_eq!(web_api::speed_label(Some("1000\n")), "1 Gbps");
    assert_eq!(web_api::speed_label(Some("2500")), "2 Gbps");
    assert_eq!(web_api::speed_label(Some("100")), "100 Mbps");
    assert_eq!(web_api::speed_label(Some("-1")), "-1 Mbps");
    assert_eq!(web_api::speed_label(Some("fast")), "—");
    assert_eq!(web_api::speed_label(None), "—");
}

#[test]
fn link_states() {
    assert!(web_api::operstate_active(Some("up\n")));
    assert!(web_api::operstate_active(Some("unknown")));
    assert!(!web_api::operstate_active(Some("down")));
    assert!(!web_api::operstate_active(None));
    let i = web_api::interface_info("eth0".to_string(), Some("up"), Some("10000"));
    assert_eq!(i.name, "eth0");
    assert!(i.active);
    assert_eq!(i.speed, "10 Gbps");
}

#[test]
fn interfaces_when_none_can_be_listed() {
    let v = web_api::fallback_interfaces("enp0s3".to_string());
    assert_eq!(v.len(), 2);
    assert_eq!(v[0].name, "enp0s3");
    assert_eq!(v[0].speed, "—");
    assert!(v[0].active);
    assert_eq!(v[1].name, "lo");
    assert!(!v[1].active);

    let w = web_server::fallback_interfaces();
    let names: Vec<&str> = w.iter().map(|i| i.name.as_str()).collect();
    assert_eq!(names, vec!["eth0", "wlan0", "lo"]);
    assert_eq!(w[1].speed, "866 Mbps");
}

#[test]
fn default_route_interface() {
    assert_eq!(
        web_api::default_route_interface(Some("default via 10.0.2.2 dev enp0s3 proto dhcp metric 100\n")),
        "enp0s3"
    );
    assert_eq!(web_api::default_route_interface(Some("default via 192.168.1.1 dev wlan0")), "wlan0");
    assert_eq!(web_api::default_route_interface(Some("")), "enp0s3");
    assert_eq!(web_api::default_route_interface(None), "enp0s3");
}

#[test]
fn times_before_the_epoch() {
    let t = Timestamp { secs: 5, nanos: 300_000_000, before_epoch: true };
    assert_eq!(web_server::system_time_debug(t), "SystemTime { tv_sec: -6, tv_nsec: 700000000 }");
    let whole = Timestamp { secs: 5, nanos: 0, before_epoch: true };
    assert_eq!(web_server::system_time_debug(whole), "SystemTime { tv_sec: -5, tv_nsec: 0 }");
    assert_eq!(web_api::time_of_day(t), "00:00:00.000");
}

#[test]
fn server_side_listing() {
    assert_eq!(
        web_server::system_time_debug(Timestamp { secs: 5, nanos: 7, before_epoch: false }),
        "SystemTime { tv_sec: 5, tv_nsec: 7 }"
    );
    let e = event(SERVER, HOST, 443, 51000, Protocol::Udp, 99);
    let p = web_server::packet_event_of(&e);
    assert_eq!(p.process_name, "—");
    assert_eq!(p.pid, 0);
    assert_eq!(p.protocol, "UDP");
    let (_, fe) = flow(10, 1, 1);
    let f = web_server::flow_data_of(&fe);
    assert_eq!(f.bytes, 10);
    let flows = vec![flow(100, 4, 443), flow(200, 1, 80)];
    let s = web_server::system_stats(&flows, 2, "eth0".to_string(), "Linux".to_string());
    assert_eq!(s.total_pkts, 5);
    assert_eq!(s.total_bytes, 300);
    assert_eq!(s.active_flows, 2);
}

#[test]
fn capture_state_defaults_and_uptime() {
    let c = CaptureState::default();
    assert_eq!(c.interface, Some("eth0".to_string()));
    assert!(!c.is_live);
    assert_eq!(c.formatted_uptime(), "00:00:00");
    let mut d = c.clone();
    d.uptime_secs = 97;
    assert_eq!(d.formatted_uptime(), "00:01:37");
    d.uptime_secs = 360_000;
    assert_eq!(d.formatted_uptime(), "100:00:00");
    let s = SystemStats::default();
    assert_eq!(s.total_pkts, 0);
    assert!(s.kernel.is_empty());
}

#[test]
fn protocol_badges_count_a_poll() {
    let init = initial_protocol_counts();
    let labels: Vec<&str> = init.iter().map(|c| c.label.as_str()).collect();
    assert_eq!(labels, vec!["TCP", "UDP", "ICMP", "DNS", "TLS", "Other"]);
    assert!(init.iter().all(|c| c.count == 0));
    assert_eq!(init[4].color_class, "bg-cyan-500");

    let counts = tally_protocols(&sample_feed());
    let numbers: Vec<u32> = counts.iter().map(|c| c.count).collect();
    assert_eq!(numbers, vec![2, 1, 1, 1, 1, 0]);
    assert_eq!(count_labeled(&counts, "UDP"), 1);
    assert_eq!(count_labeled(&counts, "TLS"), 1);
    assert_eq!(count_labeled(&counts, "nope"), 0);
    assert_eq!(counts_total(&counts), 6);
    assert_eq!(numbers[0] + numbers[1] + numbers[2] + numbers[5], sample_feed().len() as u32);
}

#[test]
fn polls_roll_the_packet_list() {
    let mut packets: Vec<PacketEvent> = Vec::new();
    let mut capture = CaptureState::default();
    assert!(apply_poll(&mut packets, &mut capture, &Vec::new()).is_none());
    assert!(packets.is_empty());
    assert_eq!(capture.total_events, 0);

    let counts = apply_poll(&mut packets, &mut capture, &sample_feed()).expect("counts");
    assert_eq!(packets.len(), 4);
    assert_eq!(capture.total_events, 4);
    assert_eq!(counts[0].count, 2);

    let mut many: Vec<PacketEvent> = Vec::new();
    for i in 0..(MAX_CLIENT_PACKETS as u32 - 1) {
        many.push(pkt("x", i, "1.1.1.1", 1, "2.2.2.2", 2, "TCP", i));
    }
    let mut cap2 = CaptureState::default();
    apply_poll(&mut many, &mut cap2, &sample_feed());
    assert_eq!(many.len(), MAX_CLIENT_PACKETS);
    assert_eq!(many[0].pkt_len, 3);
    assert_eq!(many[MAX_CLIENT_PACKETS - 1].process_name, "ping");
}

#[test]
fn traffic_history_rolls() {
    let mut h = initial_history();
    assert_eq!(h.len(), HISTORY_LEN);
    assert_eq!(chart_peak(&h), 1);
    let t = mock_traffic_sample(2, 8);
    assert_eq!(t.bytes_in_window, 2918);
    assert_eq!(t.sent_bytes_in_window, 1659);
    assert_eq!(t.recv_bytes_in_window, 1946);
    assert_eq!(t.packets_in_window, 13);
    assert_eq!(t.active_flows, 2);
    push_sample(&mut h, t.clone());
    assert_eq!(h.len(), HISTORY_LEN);
    assert_eq!(h[HISTORY_LEN - 1], t);
    assert_eq!(chart_peak(&h), 1946);

    let quiet = mock_traffic_sample(0, 0);
    assert_eq!(quiet.bytes_in_window, 0);
    assert_eq!(quiet.packets_in_window, 10);
    let idle = mock_traffic_sample(0, 3);
    assert_eq!(idle.bytes_in_window, 1350);
}

#[test]
fn capture_interface_choice() {
    let iface = |n: &str, active: bool| InterfaceInfo { name: n.to_string(), speed: "—".to_string(), active };
    let v = vec![iface("lo", true), iface("eth0", false), iface("wlan0", true)];
    assert_eq!(choose_capture_interface(&v), Some("wlan0".to_string()));
    let w = vec![iface("lo", true), iface("eth0", false)];
    assert_eq!(choose_capture_interface(&w), Some("eth0".to_string()));
    let only_lo = vec![iface("lo", false)];
    assert_eq!(choose_capture_interface(&only_lo), Some("lo".to_string()));
    assert_eq!(choose_capture_interface(&Vec::new()), None);
}

#[test]
fn selection_and_status_bar() {
    let feed = sample_feed();
    assert_eq!(selected_packet(&feed, Some(2)), Some(feed[2].clone()));
    assert_eq!(selected_packet(&feed, Some(4)), None);
    assert_eq!(selected_packet(&feed, None), None);

    let mut cap = CaptureState::default();
    let mut stats = SystemStats::default();
    stats.interface = "enp0s3".to_string();
    assert_eq!(status_interface(&cap, &stats), "eth0");
    cap.interface = None;
    assert_eq!(status_interface(&cap, &stats), "enp0s3");
    assert_eq!(status_kernel(&stats), "Linux");
    stats.kernel = "Linux version 6.8".to_string();
    assert_eq!(status_kernel(&stats), "Linux version 6.8");
}

#[test]
fn packet_info_and_direction() {
    let feed = sample_feed();
    assert_eq!(packet_info(&feed[0]), "TLSv1.3 Application Data");
    assert_eq!(packet_info(&feed[1]), "Standard query A example.com");
    assert_eq!(packet_info(&feed[2]), "ACK");
    assert_eq!(packet_info(&feed[3]), "Echo (ping) request");
    assert_eq!(packet_info(&pkt("x", 1, "a", 5, "b", 6, "UDP", 1)), "UDP Payload");
    assert_eq!(packet_info(&pkt("x", 1, "a", 5, "b", 6, "PROTO(47)", 1)), "SSH Protocol Data");
    assert_eq!(direction_label(&feed[0]), "↑ Outgoing");
    assert_eq!(direction_label(&feed[3]), "↓ Incoming");
}

#[test]
fn hex_view_of_the_reconstructed_header() {
    let p = pkt("x", 1, "10.0.0.1", 443, "192.168.1.4", 51000, "TCP", 1500);
    let b = header_bytes(&p);
    assert_eq!(b.len(), 32);
    assert_eq!(hex_line(&b, 0, 16), "45 00 05 dc 40 00 40 06 01 bb c7 38 00 00 00 00");
    assert_eq!(hex_line(&b, 16, 32), "00 00 00 00 00 00 00 00 00 00 00 00 00 00 00 00");
    assert_eq!(ascii_line(&b, 0, 16), "E...@.@....8....");
    let u = header_bytes(&pkt("x", 1, "a", 0, "b", 0, "UDP", 78));
    assert_eq!(u[7], 17);
    let other = header_bytes(&pkt("x", 1, "a", 0, "b", 0, "PROTO(47)", 78));
    assert_eq!(other[7], 0);
}

#[test]
fn packet_table_filters() {
    let feed = sample_feed();
    assert_eq!(visible_packets(&feed, None, ""), vec![0, 1, 2, 3]);
    assert_eq!(visible_packets(&feed, Some("TLS"), ""), vec![0]);
    assert_eq!(visible_packets(&feed, Some("dns"), ""), vec![1]);
    assert_eq!(visible_packets(&feed, Some("Other"), ""), Vec::<usize>::new());
    assert_eq!(visible_packets(&feed, Some("tcp"), ""), vec![0, 2]);
    assert_eq!(visible_packets(&feed, Some("ICMP"), "  "), vec![3]);
    assert!(packet_visible(&feed[0], Some("Tcp"), ""));
}

#[test]
fn packet_table_search() {
    let feed = sample_feed();
    assert_eq!(visible_packets(&feed, None, "port == 22"), vec![2]);
    assert_eq!(visible_packets(&feed, None, "tcp.port == 443"), vec![0]);
    assert_eq!(visible_packets(&feed, None, "process == \"FIREFOX\""), vec![0]);
    assert_eq!(visible_packets(&feed, None, "protocol == udp"), vec![1]);
    assert_eq!(visible_packets(&feed, None, "1.1.1"), vec![1]);
    assert_eq!(visible_packets(&feed, None, "8421"), vec![0]);
    assert_eq!(visible_packets(&feed, None, "port == abc"), Vec::<usize>::new());
    assert_eq!(visible_packets(&feed, Some("UDP"), "ssh"), Vec::<usize>::new());
}

#[test]
fn top_processes_by_traffic() {
    let feed = vec![
        pkt("firefox", 8421, "192.168.1.4", 49231, "142.250.74.206", 443, "TCP", 1448),
        pkt("firefox", 8421, "142.250.74.206", 443, "192.168.1.4", 49231, "TCP", 1448),
        pkt("ssh", 2231, "192.168.1.4", 0, "192.168.1.10", 22, "TCP", 512),
        pkt("discord", 9122, "192.168.1.4", 53712, "162.159.130.232", 443, "TCP", 1240),
    ];
    let rows = top_processes(&feed, "");
    let names: Vec<&str> = rows.iter().map(|r| r.name.as_str()).collect();
    assert_eq!(names, vec!["firefox", "discord", "ssh"]);
    assert_eq!(rows[0].connections, 2);
    assert_eq!(rows[0].total_bytes, 2896);
    assert_eq!(rows[0].sent_bytes, 2896);
    assert_eq!(rows[0].recv_bytes, 0);
    assert_eq!(rows[0].pid_str, "8421");
    assert_eq!(rows[0].top_remote, "142.250.74.206:443");
    assert_eq!(rows[0].bytes_str, "2.9 KB");
    assert_eq!(rows[0].sent_str, "2.9 KB");
    assert_eq!(rows[0].recv_str, "0 B");
    assert_eq!(rows[2].bytes_str, "512 B");
    assert_eq!(rows[2].recv_bytes, 512);
    assert_eq!(rows[2].sent_bytes, 0);

    let total: u64 = rows.iter().map(|r| r.total_bytes).sum();
    let connections: u32 = rows.iter().map(|r| r.connections).sum();
    assert_eq!(total, feed.iter().map(|p| p.pkt_len as u64).sum::<u64>());
    assert_eq!(connections as usize, feed.len());

    let searched = top_processes(&feed, " SSH ");
    assert_eq!(searched.len(), 1);
    assert_eq!(searched[0].name, "ssh");
}

#[test]
fn top_processes_keep_six() {
    let mut feed = Vec::new();
    for i in 0..8u32 {
        feed.push(pkt(&format!("p{}", i), 0, "1.1.1.1", 1, "2.2.2.2", 2, "TCP", 10 * (i + 1)));
    }
    let rows = top_processes(&feed, "");
    assert_eq!(rows.len(), TOP_PROCESSES);
    assert_eq!(rows[0].name, "p7");
    assert_eq!(rows[5].name, "p2");
    assert_eq!(rows[0].pid_str, "—");
    assert!(rows.windows(2).all(|w| w[0].total_bytes >= w[1].total_bytes));
}

#[test]
fn sample_data() {
    let procs = web_dummy::get_processes();
    assert_eq!(procs[0].name, "firefox");
    assert_eq!(procs[0].pid, 8421);
    let packets = web_dummy::get_packets();
    assert_eq!(packets.len(), 10);
    assert!(packets[0].is_selected);
    assert_eq!(packets[9].info, "TLSv1.3 Client Hello");
    let filters = web_dummy::get_filters();
    assert_eq!(filters.len(), 6);
    assert_eq!(filters[0].count, 1032);
    assert_eq!(web_dummy::get_interfaces()[1].speed, "866 Mbps");
    assert_eq!(web_dummy::get_selected_packet_detail().direction, "Outgoing");
    assert_eq!(web_dummy::get_capture_state().uptime, "00:01:37");
    assert_eq!(web_dummy::get_system_metrics().kernel, "6.8.0-arch1-1");
    let hex = web_dummy::get_hex_dump();
    assert_eq!(hex.len(), 8);
    assert_eq!(hex[0].hex, "45 00 05 dc a1 b2 40 00");
    assert_eq!(hex[7].offset, "0070");
}

#[test]
fn icon_lookup_names() {
    assert_eq!(icon_lookup_name("  Firefox \n"), "firefox");
    assert_eq!(icon_candidate_names(""), None);
    assert_eq!(icon_candidate_names("—"), None);
    assert_eq!(
        icon_candidate_names("/usr/bin/ssh"),
        Some(vec![
            "ssh".to_string(),
            "utilities-terminal".to_string(),
            "terminal".to_string(),
            "org.gnome.Terminal".to_string(),
            "bash".to_string(),
        ])
    );
    assert_eq!(
        icon_candidate_names("python3.11"),
        Some(vec![
            "python3".to_string(),
            "python".to_string(),
            "python3".to_string(),
            "applications-other".to_string(),
        ])
    );
    assert_eq!(icon_candidate_names("Firefox-bin"), Some(vec!["firefox-bin".to_string()]));
    assert_eq!(icon_candidate_names("curl").map(|v| v.len()), Some(4));
    assert_eq!(icon_candidate_names("systemd-resolve").map(|v| v[1].clone()), Some("system-run".to_string()));
}

#[test]
fn icon_files_in_search_order() {
    let files = icon_files("firefox", true);
    assert_eq!(files.len(), 48);
    assert_eq!(files[0].path, "/usr/share/icons/hicolor/scalable/apps/firefox.svg");
    assert_eq!(files[0].mime, "image/svg+xml");
    assert_eq!(files[1].path, "/usr/share/icons/hicolor/scalable/apps/firefox-symbolic.svg");
    assert_eq!(files[2].path, "/usr/share/icons/hicolor/scalable/apps/firefox.png");
    assert_eq!(files[2].mime, "image/png");
    assert_eq!(files[47].path, "/usr/share/pixmaps/firefox-symbolic.xpm");
    assert_eq!(files[47].mime, "image/x-xpixmap");
    let plain = icon_files("firefox", false);
    assert_eq!(plain.len(), 24);
    assert_eq!(plain[3].path, "/usr/share/icons/hicolor/48x48/apps/firefox.svg");
    assert_eq!(plain[23].path, "/usr/share/pixmaps/firefox.xpm");
}

#[test]
fn desktop_entries_name_icons() {
    assert_eq!(desktop_entry_path("firefox"), "/usr/share/applications/firefox.desktop");
    let entry = "[Desktop Entry]\nName=Firefox\nIcon=firefox-esr\r\nIcon= firefox \nIcon=other";
    assert_eq!(desktop_icon_names(entry, "firefox"), vec!["firefox-esr".to_string(), "other".to_string()]);
    assert!(desktop_icon_names("", "firefox").is_empty());
    assert!(desktop_icon_names("Name=x\n", "x").is_empty());
}

#[test]
fn client_refresh_schedule() {
    assert_eq!(client_step(false, 5), ClientStep::Wait);
    assert_eq!(client_step(true, 1), ClientStep::Poll);
    assert_eq!(client_step(true, REFRESH_EVERY), ClientStep::PollAndRefresh);
    assert_eq!(client_step(true, 10), ClientStep::PollAndRefresh);
    assert_eq!(client_step(true, 11), ClientStep::Poll);
}

#[test]
fn client_records_the_start_and_counts_uptime() {
    let mut cap = CaptureState::default();
    record_start(&mut cap, "wlan0".to_string(), true);
    assert_eq!(cap.interface, Some("wlan0".to_string()));
    assert!(cap.is_live);
    record_start(&mut cap, "eth1".to_string(), false);
    assert_eq!(cap.interface, Some("eth1".to_string()));
    assert!(!cap.is_live);
    note_refresh(&mut cap, client_step(true, 5));
    note_refresh(&mut cap, client_step(true, 6));
    note_refresh(&mut cap, client_step(false, 10));
    assert_eq!(cap.uptime_secs, 1);
}

#[test]
fn sample_data_agree() {
    let procs = web_dummy::get_processes();
    for p in web_dummy::get_packets() {
        assert!(procs.iter().any(|q| q.name == p.process && q.pid == p.pid));
    }
    for (i, a) in procs.iter().enumerate() {
        for b in procs.iter().skip(i + 1) {
            assert_ne!(a.name, b.name);
            assert_ne!(a.pid, b.pid);
        }
    }
    assert_eq!((procs[1].sent, procs[1].received, procs[1].total), ("532 KB", "310 KB", "842 KB"));
}

#[test]
fn server_interface_listing() {
    let none: Vec<(String, Option<String>, Option<String>)> = Vec::new();
    let fallback = web_server::get_interfaces(&none);
    let sample = web_dummy::get_interfaces();
    assert_eq!(fallback.len(), sample.len());
    for (f, s) in fallback.iter().zip(sample.iter()) {
        assert_eq!((f.name.as_str(), f.speed.as_str(), f.active), (s.name, s.speed, s.active));
    }
    let entries = vec![
        ("eth0".to_string(), Some("up\n".to_string()), Some("1000\n".to_string())),
        ("lo".to_string(), Some("unknown".to_string()), None),
        ("wlan0".to_string(), Some("down".to_string()), Some("x".to_string())),
    ];
    let listed = web_server::get_interfaces(&entries);
    assert_eq!(listed.len(), 3);
    assert_eq!((listed[0].name.as_str(), listed[0].speed.as_str(), listed[0].active), ("eth0", "1 Gbps", true));
    assert_eq!((listed[1].name.as_str(), listed[1].speed.as_str(), listed[1].active), ("lo", "—", true));
    assert_eq!((listed[2].name.as_str(), listed[2].speed.as_str(), listed[2].active), ("wlan0", "—", false));
}
