use kamiki::collector::{ifindex_path, parse_ifindex, CollectorConfig};
use kamiki::event::{
    host_is_little_endian, Ipv4Addr, NetworkEvent, Protocol, RawPktEvent, Timestamp, RAW_EVENT_SIZE,
};
use kamiki::filter::Filter;
use kamiki::flow::{
    evict_idle, evict_idle_at, sort_by_bytes_desc, update_flow, update_flow_at, FlowEntry, FlowKey,
    FlowTable,
};
use kamiki::process::{build_socket_map, lookup_process, ProcessInfo};

const HOST: u32 = 0xC0A8_0104; // 192.168.1.4
const SERVER: u32 = 0x0A00_0001; // 10.0.0.1

fn event(src: u32, dst: u32, sport: u16, dport: u16, protocol: Protocol, len: u32) -> NetworkEvent {
    NetworkEvent {
        src_ip: Ipv4Addr(src),
        dst_ip: Ipv4Addr(dst),
        src_port: sport,
        dst_port: dport,
        protocol,
        pkt_len: len,
        timestamp: Timestamp { secs: 0, nanos: 0, before_epoch: false },
        process: None,
    }
}

fn with_process(mut e: NetworkEvent, pid: u32, comm: &str) -> NetworkEvent {
    e.process = Some(ProcessInfo { pid, tgid: pid, uid: 1000, comm: comm.to_string() });
    e
}

fn key(src: u32, dst: u32, sport: u16, dport: u16, protocol: Protocol) -> FlowKey {
    FlowKey { src_ip: Ipv4Addr(src), dst_ip: Ipv4Addr(dst), src_port: sport, dst_port: dport, protocol }
}

fn entry(bytes: u64, port: u16) -> (FlowKey, FlowEntry) {
    let k = key(SERVER, HOST, port, 80, Protocol::Tcp);
    (k, FlowEntry { key: k, first_seen: 0, last_seen: 0, packets: 1, bytes })
}

#[test]
fn address_renders_as_dotted_quad() {
    assert_eq!(Ipv4Addr(HOST).to_string(), "192.168.1.4");
    assert_eq!(Ipv4Addr(0).to_string(), "0.0.0.0");
    assert_eq!(Ipv4Addr(u32::MAX).to_string(), "255.255.255.255");
}

#[test]
fn protocol_numbers_decode_to_variants() {
    assert_eq!(Protocol::from_number(6), Protocol::Tcp);
    assert_eq!(Protocol::from_number(17), Protocol::Udp);
    assert_eq!(Protocol::from_number(1), Protocol::Icmp);
    assert_eq!(Protocol::from_number(47), Protocol::Unknown(47));
    assert_eq!(Protocol::from(17u8), Protocol::Udp);
}

#[test]
fn protocol_number_round_trips() {
    for v in 0..=255u8 {
        assert_eq!(Protocol::from_number(v).number(), v);
    }
    assert_eq!(Protocol::from_number(Protocol::Icmp.number()), Protocol::Icmp);
}

#[test]
fn protocol_labels() {
    assert_eq!(Protocol::Tcp.to_string(), "TCP");
    assert_eq!(Protocol::Udp.to_string(), "UDP");
    assert_eq!(Protocol::Icmp.to_string(), "ICMP");
    assert_eq!(Protocol::Unknown(47).to_string(), "PROTO(47)");
    assert_eq!(Protocol::Unknown(0).to_string(), "PROTO(0)");
}

fn sample_record() -> Vec<u8> {
    vec![
        0x01, 0x00, 0x00, 0x0A, // source 10.0.0.1
        0x04, 0x01, 0xA8, 0xC0, // destination 192.168.1.4
        0xBB, 0x01, // source port 443
        0x38, 0xC7, // destination port 51000
        6, // TCP
        0, 0, 0, // padding
        0xDC, 0x05, 0x00, 0x00, // length 1500
    ]
}

#[test]
fn record_is_read_little_endian() {
    let bytes = sample_record();
    assert_eq!(bytes.len(), RAW_EVENT_SIZE);
    let raw = RawPktEvent::from_bytes_in_order(&bytes, true).expect("a full record");
    assert_eq!(raw.src_ip, SERVER);
    assert_eq!(raw.dst_ip, HOST);
    assert_eq!(raw.src_port, 443);
    assert_eq!(raw.dst_port, 51000);
    assert_eq!(raw.protocol, 6);
    assert_eq!(raw.pkt_len, 1500);
}

#[test]
fn short_record_is_refused() {
    let bytes = sample_record();
    assert!(RawPktEvent::from_bytes(&bytes[..19]).is_none());
    assert!(RawPktEvent::from_bytes(&[]).is_none());
    let mut longer = sample_record();
    longer.push(0xFF);
    assert_eq!(RawPktEvent::from_bytes_in_order(&longer, true).expect("record").pkt_len, 1500);
}

#[test]
fn decode_keeps_fields_and_stamps_time() {
    let raw = RawPktEvent::from_bytes_in_order(&sample_record(), true).expect("record");
    let e = raw.decode_at(Timestamp { secs: 5, nanos: 7, before_epoch: false });
    assert_eq!(e.src_ip, Ipv4Addr(SERVER));
    assert_eq!(e.dst_ip, Ipv4Addr(HOST));
    assert_eq!(e.protocol, Protocol::Tcp);
    assert_eq!(e.pkt_len, 1500);
    assert_eq!(e.timestamp, Timestamp { secs: 5, nanos: 7, before_epoch: false });
    assert!(e.process.is_none());

    let live = raw.decode();
    assert!(live.timestamp.nanos < 1_000_000_000);
    assert!(live.timestamp.secs > 1_500_000_000);
    assert_eq!(live.src_port, 443);
}

#[test]
fn empty_filter_matches_everything() {
    let f = Filter::default();
    assert!(f.is_empty());
    assert!(f.matches(&event(SERVER, HOST, 443, 51000, Protocol::Tcp, 60)));
    assert!(f.matches(&event(0, 0, 0, 0, Protocol::Unknown(99), 0)));
}

#[test]
fn filter_criteria_all_must_hold() {
    let mut f = Filter::default();
    f.protocol = Some(Protocol::Udp);
    f.dst_port = Some(53);
    assert!(!f.is_empty());
    assert!(f.matches(&event(HOST, SERVER, 40000, 53, Protocol::Udp, 70)));
    assert!(!f.matches(&event(HOST, SERVER, 40000, 53, Protocol::Tcp, 70)));
    assert!(!f.matches(&event(HOST, SERVER, 40000, 54, Protocol::Udp, 70)));

    let mut g = Filter::default();
    g.src_ip = Some(Ipv4Addr(HOST));
    assert!(g.matches(&event(HOST, SERVER, 1, 2, Protocol::Tcp, 1)));
    assert!(!g.matches(&event(SERVER, HOST, 1, 2, Protocol::Tcp, 1)));
}

#[test]
fn process_criteria_need_a_process() {
    let mut f = Filter::default();
    f.process_name = Some("fire".to_string());
    let bare = event(HOST, SERVER, 40000, 443, Protocol::Tcp, 70);
    assert!(!f.matches(&bare));
    assert!(f.matches(&with_process(bare.clone(), 8421, "firefox")));
    assert!(!f.matches(&with_process(bare.clone(), 8421, "curl")));

    let mut g = Filter::default();
    g.pid = Some(8421);
    assert!(!g.matches(&bare));
    assert!(g.matches(&with_process(bare.clone(), 8421, "firefox")));
    assert!(!g.matches(&with_process(bare, 1, "firefox")));
}

#[test]
fn normalized_puts_lower_endpoint_first() {
    let k = key(HOST, SERVER, 51000, 443, Protocol::Tcp).normalized();
    assert_eq!(k, key(SERVER, HOST, 443, 51000, Protocol::Tcp));
    let same_ip = key(SERVER, SERVER, 9000, 80, Protocol::Udp).normalized();
    assert_eq!(same_ip, key(SERVER, SERVER, 80, 9000, Protocol::Udp));
    let already = key(SERVER, HOST, 443, 51000, Protocol::Tcp);
    assert_eq!(already.normalized(), already);
    assert_eq!(already.normalized().normalized(), already.normalized());
}

#[test]
fn duration_and_idleness() {
    let k = key(SERVER, HOST, 443, 51000, Protocol::Tcp);
    let e = FlowEntry { key: k, first_seen: 100, last_seen: 250, packets: 2, bytes: 10 };
    assert_eq!(e.duration(), 150);
    assert!(e.is_idle(400, 100));
    assert!(!e.is_idle(350, 100));
    assert!(!e.is_idle(200, 0));
    let odd = FlowEntry { key: k, first_seen: 300, last_seen: 250, packets: 1, bytes: 1 };
    assert_eq!(odd.duration(), 0);
}

#[test]
fn packet_and_reply_share_a_flow() {
    let mut t = FlowTable::new();
    assert_eq!(t.len(), 0);
    let out = event(HOST, SERVER, 51000, 443, Protocol::Tcp, 100);
    let back = event(SERVER, HOST, 443, 51000, Protocol::Tcp, 1400);
    assert!(t.can_record(&out));
    update_flow_at(&mut t, &out, 1_000);
    update_flow_at(&mut t, &back, 4_000);
    assert_eq!(t.len(), 1);
    let k = key(SERVER, HOST, 443, 51000, Protocol::Tcp);
    let f = t.get(&k).expect("one flow");
    assert_eq!(f.key, k);
    assert_eq!(f.packets, 2);
    assert_eq!(f.bytes, 1500);
    assert_eq!(f.first_seen, 1_000);
    assert_eq!(f.last_seen, 4_000);
    assert_eq!(f.duration(), 3_000);
    assert!(t.get(&key(HOST, SERVER, 51000, 443, Protocol::Tcp)).is_none());
}

#[test]
fn distinct_conversations_are_distinct_flows() {
    let mut t = FlowTable::new();
    update_flow(&mut t, &event(HOST, SERVER, 51000, 443, Protocol::Tcp, 100));
    update_flow(&mut t, &event(HOST, SERVER, 51000, 443, Protocol::Udp, 100));
    update_flow(&mut t, &event(HOST, SERVER, 51001, 443, Protocol::Tcp, 100));
    assert_eq!(t.len(), 3);
    let snap = t.snapshot();
    assert_eq!(snap.len(), 3);
    for (k, e) in snap.iter() {
        assert_eq!(*k, e.key);
        assert_eq!(e.packets, 1);
        assert_eq!(e.bytes, 100);
    }
}

#[test]
fn eviction_drops_idle_flows_only() {
    let mut t = FlowTable::new();
    update_flow_at(&mut t, &event(HOST, SERVER, 1, 2, Protocol::Tcp, 10), 100);
    update_flow_at(&mut t, &event(HOST, SERVER, 3, 4, Protocol::Tcp, 10), 900);
    evict_idle_at(&mut t, 1_000, 500);
    assert_eq!(t.len(), 1);
    assert!(t.get(&key(HOST, SERVER, 3, 4, Protocol::Tcp).normalized()).is_some());
    evict_idle_at(&mut t, 1_000, 500);
    assert_eq!(t.len(), 1);
    evict_idle_at(&mut t, 900, 0);
    assert_eq!(t.len(), 1);
    evict_idle_at(&mut t, 901, 0);
    assert_eq!(t.len(), 0);
}

#[test]
fn a_flow_just_counted_survives_eviction() {
    let mut t = FlowTable::new();
    let e = event(HOST, SERVER, 1, 2, Protocol::Tcp, 10);
    update_flow_at(&mut t, &e, 500);
    evict_idle_at(&mut t, 500, 0);
    assert_eq!(t.len(), 1);
    let f = t.get(&key(HOST, SERVER, 1, 2, Protocol::Tcp).normalized()).expect("flow");
    assert_eq!(f.last_seen, 500);
}

#[test]
fn eviction_on_the_table_clock() {
    let mut t = FlowTable::new();
    update_flow(&mut t, &event(HOST, SERVER, 1, 2, Protocol::Tcp, 10));
    evict_idle(&mut t, u64::MAX);
    assert_eq!(t.len(), 1);
    assert!(t.now() < u64::MAX);
}

#[test]
fn full_size_lengths_are_counted() {
    let mut t = FlowTable::new();
    let big = event(HOST, SERVER, 1, 2, Protocol::Tcp, u32::MAX);
    update_flow_at(&mut t, &big, 1);
    assert!(t.can_record(&big));
    let f = t.get(&key(SERVER, HOST, 2, 1, Protocol::Tcp)).expect("flow");
    assert_eq!(f.bytes, u32::MAX as u64);
}

#[test]
fn flows_sort_by_bytes_keeping_ties_in_order() {
    let v = vec![entry(5, 1), entry(9, 2), entry(5, 3), entry(1, 4)];
    let r = sort_by_bytes_desc(v);
    let order: Vec<(u64, u16)> = r.iter().map(|(k, e)| (e.bytes, k.src_port)).collect();
    assert_eq!(order, vec![(9, 2), (5, 1), (5, 3), (1, 4)]);
    assert!(sort_by_bytes_desc(Vec::new()).is_empty());
}

#[test]
fn process_lookup_is_not_resolved_yet() {
    assert!(lookup_process(Ipv4Addr(HOST), 443).is_none());
    assert!(build_socket_map().is_empty());
}

#[test]
fn collector_defaults() {
    let c = CollectorConfig::default();
    assert_eq!(c.interface, "eth0");
    assert_eq!(c.object_path, "kamiki-ebpf/out/xdp_prober.bpf.o");
    assert_eq!(c.channel_capacity, 8192);
    assert_eq!(c.poll_timeout_ms, 100);
}

#[test]
fn interface_index_file_and_parsing() {
    assert_eq!(ifindex_path("eth0"), "/sys/class/net/eth0/ifindex");
    assert_eq!(parse_ifindex("3\n"), Some(3));
    assert_eq!(parse_ifindex("  42  "), Some(42));
    assert_eq!(parse_ifindex("+7"), Some(7));
    assert_eq!(parse_ifindex("4294967295"), Some(u32::MAX));
    assert_eq!(parse_ifindex("4294967296"), None);
    assert_eq!(parse_ifindex(""), None);
    assert_eq!(parse_ifindex("eth"), None);
    assert_eq!(parse_ifindex("-1"), None);
    assert_eq!(parse_ifindex("1 2"), None);
}

#[test]
fn the_table_clock_never_goes_back() {
    let mut t = FlowTable::new();
    assert_eq!(t.last_reading(), 0);
    update_flow_at(&mut t, &event(HOST, SERVER, 1, 2, Protocol::Tcp, 10), 700);
    assert_eq!(t.last_reading(), 700);
    evict_idle_at(&mut t, 100, 0);
    assert_eq!(t.last_reading(), 700);
    update_flow(&mut t, &event(HOST, SERVER, 1, 2, Protocol::Tcp, 10));
    assert!(t.last_reading() >= 700);
    let f = t.get(&key(HOST, SERVER, 1, 2, Protocol::Tcp).normalized()).expect("flow");
    assert!(f.first_seen <= f.last_seen);
    assert_eq!(f.first_seen, 700);
    assert!(f.last_seen <= t.last_reading());
}

#[test]
fn a_new_conversation_adds_one_flow() {
    let mut t = FlowTable::new();
    update_flow(&mut t, &event(HOST, SERVER, 1, 2, Protocol::Tcp, 10));
    assert_eq!(t.len(), 1);
    update_flow(&mut t, &event(SERVER, HOST, 2, 1, Protocol::Tcp, 10));
    assert_eq!(t.len(), 1);
    update_flow(&mut t, &event(HOST, SERVER, 1, 3, Protocol::Tcp, 10));
    assert_eq!(t.len(), 2);
}

#[test]
fn records_are_read_in_either_byte_order() {
    let bytes = sample_record();
    let le = RawPktEvent::from_bytes_in_order(&bytes, true).expect("record");
    assert_eq!((le.src_ip, le.src_port, le.pkt_len), (SERVER, 443, 1500));
    let be = RawPktEvent::from_bytes_in_order(&bytes, false).expect("record");
    assert_eq!(be.src_ip, 0x0100_000A);
    assert_eq!(be.src_port, 0xBB01);
    assert_eq!(be.dst_port, 0x38C7);
    assert_eq!(be.pkt_len, 0xDC05_0000);
    assert_eq!(be.protocol, 6);
    assert!(RawPktEvent::from_bytes_in_order(&bytes[..10], false).is_none());
}

#[test]
fn host_byte_order_is_used() {
    assert_eq!(host_is_little_endian(), u16::from_ne_bytes([1, 0]) == 1);
    let bytes = sample_record();
    let host = RawPktEvent::from_bytes(&bytes).expect("record");
    let ordered = RawPktEvent::from_bytes_in_order(&bytes, host_is_little_endian()).expect("record");
    assert_eq!((host.src_ip, host.dst_port, host.pkt_len), (ordered.src_ip, ordered.dst_port, ordered.pkt_len));
}

#[test]
fn stored_keys_are_normalised() {
    let mut t = FlowTable::new();
    update_flow(&mut t, &event(HOST, SERVER, 51000, 443, Protocol::Tcp, 10));
    update_flow(&mut t, &event(SERVER, HOST, 9, 9, Protocol::Udp, 10));
    for (k, e) in t.snapshot() {
        assert_eq!(k, k.normalized());
        assert_eq!(e.key, k);
        assert!(e.packets >= 1);
    }
}
