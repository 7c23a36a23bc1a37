//! Sample data for laying out the web front end without a live capture.

use vstd::prelude::*;
use crate::text::decimal;
use crate::units::one_decimal;

verus! {

#[derive(Clone, Copy, Debug, PartialEq)]
pub struct ProcessInfo {
    pub name: &'static str,
    pub pid: u32,
    pub connections: u32,
    pub sent: &'static str,
    pub received: &'static str,
    pub total: &'static str,
    pub top_remote: &'static str,
    pub icon_color: &'static str,
}

#[derive(Clone, Copy, Debug, PartialEq)]
pub struct PacketEvent {
    pub time: &'static str,
    pub process: &'static str,
    pub pid: u32,
    pub source: &'static str,
    pub destination: &'static str,
    pub protocol: &'static str,
    pub info: &'static str,
    pub size: u32,
    pub is_selected: bool,
}

#[derive(Clone, Copy, Debug, PartialEq)]
pub struct FilterCount {
    pub label: &'static str,
    pub count: u32,
    pub color_class: &'static str,
}

#[derive(Clone, Copy, Debug, PartialEq)]
pub struct InterfaceInfo {
    pub name: &'static str,
    pub speed: &'static str,
    pub active: bool,
}

#[derive(Clone, Copy, Debug, PartialEq)]
pub struct PacketDetail {
    pub timestamp: &'static str,
    pub process: &'static str,
    pub pid: u32,
    pub source: &'static str,
    pub destination: &'static str,
    pub protocol: &'static str,
    pub length: u32,
    pub interface: &'static str,
    pub direction: &'static str,
}

#[derive(Clone, Copy, Debug, PartialEq)]
pub struct CaptureState {
    pub uptime: &'static str,
    pub events: u32,
    pub dropped: u32,
    pub is_live: bool,
}

#[derive(Clone, Copy, Debug, PartialEq)]
pub struct SystemMetrics {
    pub packets: u32,
    pub bytes: &'static str,
    pub flows: u32,
    pub connections: u32,
    pub cpu: &'static str,
    pub memory: &'static str,
    pub interface: &'static str,
    pub kernel: &'static str,
}

#[derive(Clone, Copy, Debug, PartialEq)]
pub struct HexLine {
    pub offset: &'static str,
    pub hex: &'static str,
    pub ascii: &'static str,
}

/// The sample process table.
pub open spec fn sample_processes() -> Seq<ProcessInfo> {
    seq![
        ProcessInfo {
            name: "firefox",
            pid: 8421,
            connections: 45,
            sent: "1.4 MB",
            received: "8.7 MB",
            total: "10.1 MB",
            top_remote: "142.250.74.206:443",
            icon_color: "text-orange-500",
        },
        ProcessInfo {
            name: "discord",
            pid: 9122,
            connections: 26,
            sent: "532 KB",
            received: "310 KB",
            total: "842 KB",
            top_remote: "162.159.130.232:443",
            icon_color: "text-indigo-400",
        },
        ProcessInfo {
            name: "ssh",
            pid: 2231,
            connections: 3,
            sent: "12 KB",
            received: "12 KB",
            total: "24 KB",
            top_remote: "192.168.1.10:22",
            icon_color: "text-gray-400",
        },
        ProcessInfo {
            name: "spotify",
            pid: 7721,
            connections: 8,
            sent: "210 KB",
            received: "320 KB",
            total: "530 KB",
            top_remote: "35.186.224.24:443",
            icon_color: "text-green-500",
        },
        ProcessInfo {
            name: "curl",
            pid: 9912,
            connections: 1,
            sent: "4 KB",
            received: "4 KB",
            total: "8 KB",
            top_remote: "142.250.189.78:443",
            icon_color: "text-blue-400",
        },
        ProcessInfo {
            name: "systemd-resolve",
            pid: 1452,
            connections: 2,
            sent: "2 KB",
            received: "6 KB",
            total: "8 KB",
            top_remote: "1.1.1.1:53",
            icon_color: "text-cyan-400",
        },
    ]
}

/// The sample process table.
pub fn get_processes() -> (r: Vec<ProcessInfo>)
    ensures
        r@ == sample_processes(),
{
    vec![
        ProcessInfo {
            name: "firefox",
            pid: 8421,
            connections: 45,
            sent: "1.4 MB",
            received: "8.7 MB",
            total: "10.1 MB",
            top_remote: "142.250.74.206:443",
            icon_color: "text-orange-500",
        },
        ProcessInfo {
            name: "discord",
            pid: 9122,
            connections: 26,
            sent: "532 KB",
            received: "310 KB",
            total: "842 KB",
            top_remote: "162.159.130.232:443",
            icon_color: "text-indigo-400",
        },
        ProcessInfo {
            name: "ssh",
            pid: 2231,
            connections: 3,
            sent: "12 KB",
            received: "12 KB",
            total: "24 KB",
            top_remote: "192.168.1.10:22",
            icon_color: "text-gray-400",
        },
        ProcessInfo {
            name: "spotify",
            pid: 7721,
            connections: 8,
            sent: "210 KB",
            received: "320 KB",
            total: "530 KB",
            top_remote: "35.186.224.24:443",
            icon_color: "text-green-500",
        },
        ProcessInfo {
            name: "curl",
            pid: 9912,
            connections: 1,
            sent: "4 KB",
            received: "4 KB",
            total: "8 KB",
            top_remote: "142.250.189.78:443",
            icon_color: "text-blue-400",
        },
        ProcessInfo {
            name: "systemd-resolve",
            pid: 1452,
            connections: 2,
            sent: "2 KB",
            received: "6 KB",
            total: "8 KB",
            top_remote: "1.1.1.1:53",
            icon_color: "text-cyan-400",
        },
    ]
}

/// The sample packet list.
pub open spec fn sample_packets() -> Seq<PacketEvent> {
    seq![
        PacketEvent {
            time: "14:35:21.123456",
            process: "firefox",
            pid: 8421,
            source: "192.168.1.4:49231",
            destination: "142.250.74.206:443",
            protocol: "TCP",
            info: "TLSv1.3 Application Data",
            size: 1448,
            is_selected: true,
        },
        PacketEvent {
            time: "14:35:21.123789",
            process: "firefox",
            pid: 8421,
            source: "142.250.74.206:443",
            destination: "192.168.1.4:49231",
            protocol: "TCP",
            info: "TLSv1.3 Application Data",
            size: 1448,
            is_selected: false,
        },
        PacketEvent {
            time: "14:35:21.124001",
            process: "discord",
            pid: 9122,
            source: "192.168.1.4:53712",
            destination: "162.159.130.232:443",
            protocol: "TCP",
            info: "TLSv1.3 Application Data",
            size: 1240,
            is_selected: false,
        },
        PacketEvent {
            time: "14:35:21.124300",
            process: "ssh",
            pid: 2231,
            source: "192.168.1.4:54222",
            destination: "192.168.1.10:22",
            protocol: "TCP",
            info: "SSH Protocol Data",
            size: 512,
            is_selected: false,
        },
        PacketEvent {
            time: "14:35:21.124567",
            process: "systemd-resolve",
            pid: 1452,
            source: "192.168.1.4:53",
            destination: "1.1.1.1:53",
            protocol: "UDP",
            info: "Standard query 0x1a2b A example.com",
            size: 78,
            is_selected: false,
        },
        PacketEvent {
            time: "14:35:21.124890",
            process: "systemd-resolve",
            pid: 1452,
            source: "1.1.1.1:53",
            destination: "192.168.1.4:53",
            protocol: "UDP",
            info: "Standard query response 0x1a2b A ...",
            size: 110,
            is_selected: false,
        },
        PacketEvent {
            time: "14:35:21.125200",
            process: "firefox",
            pid: 8421,
            source: "192.168.1.4:49231",
            destination: "142.250.74.206:443",
            protocol: "TCP",
            info: "ACK",
            size: 66,
            is_selected: false,
        },
        PacketEvent {
            time: "14:35:21.125500",
            process: "discord",
            pid: 9122,
            source: "192.168.1.4:53712",
            destination: "162.159.130.232:443",
            protocol: "TCP",
            info: "ACK",
            size: 66,
            is_selected: false,
        },
        PacketEvent {
            time: "14:35:21.125800",
            process: "spotify",
            pid: 7721,
            source: "192.168.1.4:59821",
            destination: "35.186.224.24:443",
            protocol: "TCP",
            info: "TLSv1.3 Application Data",
            size: 1448,
            is_selected: false,
        },
        PacketEvent {
            time: "14:35:21.126100",
            process: "curl",
            pid: 9912,
            source: "192.168.1.4:60211",
            destination: "142.250.189.78:443",
            protocol: "TCP",
            info: "TLSv1.3 Client Hello",
            size: 517,
            is_selected: false,
        },
    ]
}

/// The sample packet list.
pub fn get_packets() -> (r: Vec<PacketEvent>)
    ensures
        r@ == sample_packets(),
{
    vec![
        PacketEvent {
            time: "14:35:21.123456",
            process: "firefox",
            pid: 8421,
            source: "192.168.1.4:49231",
            destination: "142.250.74.206:443",
            protocol: "TCP",
            info: "TLSv1.3 Application Data",
            size: 1448,
            is_selected: true,
        },
        PacketEvent {
            time: "14:35:21.123789",
            process: "firefox",
            pid: 8421,
            source: "142.250.74.206:443",
            destination: "192.168.1.4:49231",
            protocol: "TCP",
            info: "TLSv1.3 Application Data",
            size: 1448,
            is_selected: false,
        },
        PacketEvent {
            time: "14:35:21.124001",
            process: "discord",
            pid: 9122,
            source: "192.168.1.4:53712",
            destination: "162.159.130.232:443",
            protocol: "TCP",
            info: "TLSv1.3 Application Data",
            size: 1240,
            is_selected: false,
        },
        PacketEvent {
            time: "14:35:21.124300",
            process: "ssh",
            pid: 2231,
            source: "192.168.1.4:54222",
            destination: "192.168.1.10:22",
            protocol: "TCP",
            info: "SSH Protocol Data",
            size: 512,
            is_selected: false,
        },
        PacketEvent {
            time: "14:35:21.124567",
            process: "systemd-resolve",
            pid: 1452,
            source: "192.168.1.4:53",
            destination: "1.1.1.1:53",
            protocol: "UDP",
            info: "Standard query 0x1a2b A example.com",
            size: 78,
            is_selected: false,
        },
        PacketEvent {
            time: "14:35:21.124890",
            process: "systemd-resolve",
            pid: 1452,
            source: "1.1.1.1:53",
            destination: "192.168.1.4:53",
            protocol: "UDP",
            info: "Standard query response 0x1a2b A ...",
            size: 110,
            is_selected: false,
        },
        PacketEvent {
            time: "14:35:21.125200",
            process: "firefox",
            pid: 8421,
            source: "192.168.1.4:49231",
            destination: "142.250.74.206:443",
            protocol: "TCP",
            info: "ACK",
            size: 66,
            is_selected: false,
        },
        PacketEvent {
            time: "14:35:21.125500",
            process: "discord",
            pid: 9122,
            source: "192.168.1.4:53712",
            destination: "162.159.130.232:443",
            protocol: "TCP",
            info: "ACK",
            size: 66,
            is_selected: false,
        },
        PacketEvent {
            time: "14:35:21.125800",
            process: "spotify",
            pid: 7721,
            source: "192.168.1.4:59821",
            destination: "35.186.224.24:443",
            protocol: "TCP",
            info: "TLSv1.3 Application Data",
            size: 1448,
            is_selected: false,
        },
        PacketEvent {
            time: "14:35:21.126100",
            process: "curl",
            pid: 9912,
            source: "192.168.1.4:60211",
            destination: "142.250.189.78:443",
            protocol: "TCP",
            info: "TLSv1.3 Client Hello",
            size: 517,
            is_selected: false,
        },
    ]
}

/// The sample protocol filter counts.
pub open spec fn sample_filters() -> Seq<FilterCount> {
    seq![
        FilterCount { label: "TCP", count: 1032, color_class: "bg-blue-500" },
        FilterCount { label: "UDP", count: 132, color_class: "bg-purple-500" },
        FilterCount { label: "ICMP", count: 12, color_class: "bg-yellow-500" },
        FilterCount { label: "DNS", count: 45, color_class: "bg-orange-500" },
        FilterCount { label: "TLS", count: 312, color_class: "bg-cyan-500" },
        FilterCount { label: "Other", count: 8, color_class: "bg-gray-500" },
    ]
}

/// The sample protocol filter counts.
pub fn get_filters() -> (r: Vec<FilterCount>)
    ensures
        r@ == sample_filters(),
{
    vec![
        FilterCount { label: "TCP", count: 1032, color_class: "bg-blue-500" },
        FilterCount { label: "UDP", count: 132, color_class: "bg-purple-500" },
        FilterCount { label: "ICMP", count: 12, color_class: "bg-yellow-500" },
        FilterCount { label: "DNS", count: 45, color_class: "bg-orange-500" },
        FilterCount { label: "TLS", count: 312, color_class: "bg-cyan-500" },
        FilterCount { label: "Other", count: 8, color_class: "bg-gray-500" },
    ]
}

/// The sample interface list.
pub open spec fn sample_interfaces() -> Seq<InterfaceInfo> {
    seq![
        InterfaceInfo { name: "eth0", speed: "10 Gbps", active: true },
        InterfaceInfo { name: "wlan0", speed: "866 Mbps", active: true },
        InterfaceInfo { name: "lo", speed: "—", active: false },
    ]
}

/// The sample interface list.
pub fn get_interfaces() -> (r: Vec<InterfaceInfo>)
    ensures
        r@ == sample_interfaces(),
{
    vec![
        InterfaceInfo { name: "eth0", speed: "10 Gbps", active: true },
        InterfaceInfo { name: "wlan0", speed: "866 Mbps", active: true },
        InterfaceInfo { name: "lo", speed: "—", active: false },
    ]
}

/// The sample details of the selected packet.
pub open spec fn sample_selected_packet_detail() -> PacketDetail {
    PacketDetail {
        timestamp: "14:35:21.123456",
        process: "firefox",
        pid: 8421,
        source: "192.168.1.4:49231",
        destination: "142.250.74.206:443",
        protocol: "TCP",
        length: 1448,
        interface: "eth0",
        direction: "Outgoing",
    }
}

/// The sample details of the selected packet.
pub fn get_selected_packet_detail() -> (r: PacketDetail)
    ensures
        r == sample_selected_packet_detail(),
{
    PacketDetail {
        timestamp: "14:35:21.123456",
        process: "firefox",
        pid: 8421,
        source: "192.168.1.4:49231",
        destination: "142.250.74.206:443",
        protocol: "TCP",
        length: 1448,
        interface: "eth0",
        direction: "Outgoing",
    }
}

/// The sample capture state.
pub open spec fn sample_capture_state() -> CaptureState {
    CaptureState {
        uptime: "00:01:37",
        events: 12548,
        dropped: 0,
        is_live: true,
    }
}

/// The sample capture state.
pub fn get_capture_state() -> (r: CaptureState)
    ensures
        r == sample_capture_state(),
{
    CaptureState {
        uptime: "00:01:37",
        events: 12548,
        dropped: 0,
        is_live: true,
    }
}

/// The sample system metrics.
pub open spec fn sample_system_metrics() -> SystemMetrics {
    SystemMetrics {
        packets: 12548,
        bytes: "24.8 MB",
        flows: 312,
        connections: 87,
        cpu: "3.2%",
        memory: "142 MB",
        interface: "eth0",
        kernel: "6.8.0-arch1-1",
    }
}

/// The sample system metrics.
pub fn get_system_metrics() -> (r: SystemMetrics)
    ensures
        r == sample_system_metrics(),
{
    SystemMetrics {
        packets: 12548,
        bytes: "24.8 MB",
        flows: 312,
        connections: 87,
        cpu: "3.2%",
        memory: "142 MB",
        interface: "eth0",
        kernel: "6.8.0-arch1-1",
    }
}

/// The sample hex dump of the selected packet.
pub open spec fn sample_hex_dump() -> Seq<HexLine> {
    seq![
        HexLine { offset: "0000", hex: "45 00 05 dc a1 b2 40 00", ascii: "E.....@." },
        HexLine { offset: "0010", hex: "40 06 8b 1c c0 a8 01 04", ascii: "@......." },
        HexLine { offset: "0020", hex: "8e fa 4a ce c0 8f 07 bb", ascii: "..J....." },
        HexLine { offset: "0030", hex: "be 3f 3e 4e 50 18 01 f7", ascii: ".?>NP..." },
        HexLine { offset: "0040", hex: "1a 2b 00 06 17 03 03 00", ascii: ".+......" },
        HexLine { offset: "0050", hex: "5a 00 00 00 56 03 03 00", ascii: "Z...V..." },
        HexLine { offset: "0060", hex: "9f 5d 7f 88 3a 91 6c 3e", ascii: ".]..:.l>" },
        HexLine { offset: "0070", hex: "4f 8c c3 71 d5 9e 88 3b", ascii: "O..q...;" },
    ]
}

/// The sample hex dump of the selected packet.
pub fn get_hex_dump() -> (r: Vec<HexLine>)
    ensures
        r@ == sample_hex_dump(),
{
    vec![
        HexLine { offset: "0000", hex: "45 00 05 dc a1 b2 40 00", ascii: "E.....@." },
        HexLine { offset: "0010", hex: "40 06 8b 1c c0 a8 01 04", ascii: "@......." },
        HexLine { offset: "0020", hex: "8e fa 4a ce c0 8f 07 bb", ascii: "..J....." },
        HexLine { offset: "0030", hex: "be 3f 3e 4e 50 18 01 f7", ascii: ".?>NP..." },
        HexLine { offset: "0040", hex: "1a 2b 00 06 17 03 03 00", ascii: ".+......" },
        HexLine { offset: "0050", hex: "5a 00 00 00 56 03 03 00", ascii: "Z...V..." },
        HexLine { offset: "0060", hex: "9f 5d 7f 88 3a 91 6c 3e", ascii: ".]..:.l>" },
        HexLine { offset: "0070", hex: "4f 8c c3 71 d5 9e 88 3b", ascii: "O..q...;" },
    ]
}

/// An amount as the sample table shows it: `tenths` tenths of `unit`, with
/// one decimal unless it is a whole number.
pub open spec fn shown_amount(tenths: nat, unit: Seq<char>) -> Seq<char> {
    (if tenths % 10 == 0 {
        decimal(tenths / 10)
    } else {
        one_decimal(tenths)
    }) + seq![' '] + unit
}

/// Whether a process row's sent and received amounts add up to its total,
/// all three in one unit.
pub open spec fn amounts_add_up(p: ProcessInfo) -> bool {
    exists|a: nat, b: nat, unit: Seq<char>|
        #![trigger shown_amount(a, unit), shown_amount(b, unit)]
        p.sent@ == shown_amount(a, unit) && p.received@ == shown_amount(b, unit) && p.total@
            == shown_amount(a + b, unit)
}

proof fn lemma_row_adds_up(p: ProcessInfo, a: nat, b: nat, unit: Seq<char>)
    requires
        p.sent@ == shown_amount(a, unit),
        p.received@ == shown_amount(b, unit),
        p.total@ == shown_amount(a + b, unit),
    ensures
        amounts_add_up(p),
{
}

#[verifier::rlimit(50)]
proof fn lemma_row_0_adds_up()
    ensures
        amounts_add_up(sample_processes()[0]),
{
    reveal_strlit("1.4 MB");
    reveal_strlit("8.7 MB");
    reveal_strlit("10.1 MB");
    reveal_strlit("MB");
    reveal_with_fuel(decimal, 4);
    assert(shown_amount(14, "MB"@) =~= "1.4 MB"@);
    assert(shown_amount(87, "MB"@) =~= "8.7 MB"@);
    assert(shown_amount(101, "MB"@) =~= "10.1 MB"@);
    lemma_row_adds_up(sample_processes()[0], 14, 87, "MB"@);
}

#[verifier::rlimit(50)]
proof fn lemma_row_1_adds_up()
    ensures
        amounts_add_up(sample_processes()[1]),
{
    reveal_strlit("532 KB");
    reveal_strlit("310 KB");
    reveal_strlit("842 KB");
    reveal_strlit("KB");
    reveal_with_fuel(decimal, 4);
    assert(shown_amount(5320, "KB"@) =~= "532 KB"@);
    assert(shown_amount(3100, "KB"@) =~= "310 KB"@);
    assert(shown_amount(8420, "KB"@) =~= "842 KB"@);
    lemma_row_adds_up(sample_processes()[1], 5320, 3100, "KB"@);
}

#[verifier::rlimit(50)]
proof fn lemma_row_2_adds_up()
    ensures
        amounts_add_up(sample_processes()[2]),
{
    reveal_strlit("12 KB");
    reveal_strlit("24 KB");
    reveal_strlit("KB");
    reveal_with_fuel(decimal, 4);
    assert(shown_amount(120, "KB"@) =~= "12 KB"@);
    assert(shown_amount(120, "KB"@) =~= "12 KB"@);
    assert(shown_amount(240, "KB"@) =~= "24 KB"@);
    lemma_row_adds_up(sample_processes()[2], 120, 120, "KB"@);
}

#[verifier::rlimit(50)]
proof fn lemma_row_3_adds_up()
    ensures
        amounts_add_up(sample_processes()[3]),
{
    reveal_strlit("210 KB");
    reveal_strlit("320 KB");
    reveal_strlit("530 KB");
    reveal_strlit("KB");
    reveal_with_fuel(decimal, 4);
    assert(shown_amount(2100, "KB"@) =~= "210 KB"@);
    assert(shown_amount(3200, "KB"@) =~= "320 KB"@);
    assert(shown_amount(5300, "KB"@) =~= "530 KB"@);
    lemma_row_adds_up(sample_processes()[3], 2100, 3200, "KB"@);
}

#[verifier::rlimit(50)]
proof fn lemma_row_4_adds_up()
    ensures
        amounts_add_up(sample_processes()[4]),
{
    reveal_strlit("4 KB");
    reveal_strlit("8 KB");
    reveal_strlit("KB");
    reveal_with_fuel(decimal, 4);
    assert(shown_amount(40, "KB"@) =~= "4 KB"@);
    assert(shown_amount(40, "KB"@) =~= "4 KB"@);
    assert(shown_amount(80, "KB"@) =~= "8 KB"@);
    lemma_row_adds_up(sample_processes()[4], 40, 40, "KB"@);
}

#[verifier::rlimit(50)]
proof fn lemma_row_5_adds_up()
    ensures
        amounts_add_up(sample_processes()[5]),
{
    reveal_strlit("2 KB");
    reveal_strlit("6 KB");
    reveal_strlit("8 KB");
    reveal_strlit("KB");
    reveal_with_fuel(decimal, 4);
    assert(shown_amount(20, "KB"@) =~= "2 KB"@);
    assert(shown_amount(60, "KB"@) =~= "6 KB"@);
    assert(shown_amount(80, "KB"@) =~= "8 KB"@);
    lemma_row_adds_up(sample_processes()[5], 20, 60, "KB"@);
}

proof fn lemma_packets_belong_to_processes()
    ensures
        forall|i: int|
            0 <= i < sample_packets().len() ==> exists|j: int|
                0 <= j < sample_processes().len() && (#[trigger] sample_processes()[j]).name@
                    == (#[trigger] sample_packets()[i]).process@ && sample_processes()[j].pid
                    == sample_packets()[i].pid,
{
    let procs = sample_processes();
    let pkts = sample_packets();
    assert forall|i: int| 0 <= i < pkts.len() implies exists|j: int|
        0 <= j < procs.len() && (#[trigger] procs[j]).name@ == (#[trigger] pkts[i]).process@
            && procs[j].pid == pkts[i].pid by {
        if i == 0 || i == 1 || i == 6 {
            assert(procs[0].name@ == pkts[i].process@);
        } else if i == 2 || i == 7 {
            assert(procs[1].name@ == pkts[i].process@);
        } else if i == 3 {
            assert(procs[2].name@ == pkts[i].process@);
        } else if i == 8 {
            assert(procs[3].name@ == pkts[i].process@);
        } else if i == 9 {
            assert(procs[4].name@ == pkts[i].process@);
        } else {
            assert(procs[5].name@ == pkts[i].process@);
        }
    }
}

#[verifier::rlimit(50)]
proof fn lemma_processes_distinct()
    ensures
        forall|i: int, j: int|
            0 <= i < j < sample_processes().len() ==> (#[trigger] sample_processes()[i]).name@
                != (#[trigger] sample_processes()[j]).name@ && sample_processes()[i].pid
                != sample_processes()[j].pid,
{
    reveal_strlit("firefox");
    reveal_strlit("discord");
    reveal_strlit("ssh");
    reveal_strlit("spotify");
    reveal_strlit("curl");
    reveal_strlit("systemd-resolve");
    let procs = sample_processes();
    assert forall|i: int, j: int| 0 <= i < j < procs.len() implies (#[trigger] procs[i]).name@
        != (#[trigger] procs[j]).name@ && procs[i].pid != procs[j].pid by {
        assert(procs[i].name@[0] != procs[j].name@[0] || procs[i].name@.len() != procs[j].name@.len()
            || procs[i].name@[1] != procs[j].name@[1]);
    }
}

/// The sample data agree with each other: every sample packet belongs to a
/// process of the sample table under its name and id, the table names each
/// process once and gives each a distinct id, and every row's sent and
/// received amounts add up to its total.
pub proof fn law_sample_data_consistent()
    ensures
        forall|i: int|
            0 <= i < sample_packets().len() ==> exists|j: int|
                0 <= j < sample_processes().len() && (#[trigger] sample_processes()[j]).name@
                    == (#[trigger] sample_packets()[i]).process@ && sample_processes()[j].pid
                    == sample_packets()[i].pid,
        forall|i: int, j: int|
            0 <= i < j < sample_processes().len() ==> (#[trigger] sample_processes()[i]).name@
                != (#[trigger] sample_processes()[j]).name@ && sample_processes()[i].pid
                != sample_processes()[j].pid,
        forall|i: int| 0 <= i < sample_processes().len() ==> amounts_add_up(#[trigger] sample_processes()[i]),
{
    lemma_packets_belong_to_processes();
    lemma_processes_distinct();
    lemma_row_0_adds_up();
    lemma_row_1_adds_up();
    lemma_row_2_adds_up();
    lemma_row_3_adds_up();
    lemma_row_4_adds_up();
    lemma_row_5_adds_up();
    assert forall|i: int| 0 <= i < sample_processes().len() implies amounts_add_up(
        #[trigger] sample_processes()[i],
    ) by {
        if i == 0 {
        } else if i == 1 {
        } else if i == 2 {
        } else if i == 3 {
        } else if i == 4 {
        } else {
        }
    }
}

} // verus!
