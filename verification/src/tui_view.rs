//! Text shown by the terminal front ends: the rows of the live packet table,
//! the statistics panel, and the lines of the plain command-line listing.

use vstd::prelude::*;
use vstd::string::StrSliceExecFns;
use crate::event::{NetworkEvent, Protocol, Ipv4Addr, dotted_quad, protocol_label};
use crate::text::{decimal, push_char, push_decimal, push_str};
use crate::tui::Stats;
use crate::units::{comma_grouped, fmt_bytes, fmt_bytes_text, fmt_num};

verus! {

/// `ip:port`.
pub open spec fn socket_text(ip: Ipv4Addr, port: u16) -> Seq<char> {
    dotted_quad(ip.0) + seq![':'] + decimal(port as nat)
}

/// An endpoint as the packet table shows it: the bare address for ICMP,
/// `address:port` otherwise.
pub open spec fn endpoint_text(ip: Ipv4Addr, port: u16, p: Protocol) -> Seq<char> {
    match p {
        Protocol::Tcp => socket_text(ip, port),
        Protocol::Udp => socket_text(ip, port),
        Protocol::Unknown(_) => socket_text(ip, port),
        _ => dotted_quad(ip.0),
    }
}

/// `address:port`.
pub fn socket_string(ip: Ipv4Addr, port: u16) -> (s: String)
    ensures
        s@ == socket_text(ip, port),
{
    let mut s = ip.to_string();
    push_char(&mut s, ':');
    push_decimal(&mut s, port as u64);
    s
}

/// An endpoint as the packet table shows it.
pub fn endpoint_string(ip: Ipv4Addr, port: u16, p: Protocol) -> (s: String)
    ensures
        s@ == endpoint_text(ip, port, p),
{
    match p {
        Protocol::Tcp => socket_string(ip, port),
        Protocol::Udp => socket_string(ip, port),
        Protocol::Unknown(_) => socket_string(ip, port),
        _ => ip.to_string(),
    }
}

/// The cells of one row of the live packet table.
pub struct PacketRow {
    pub proto: String,
    pub src: String,
    pub dst: String,
    pub size: String,
}

/// The row of the live packet table for an event: protocol, source,
/// destination, and size as `<n> B`.
pub fn packet_row(ev: &NetworkEvent) -> (r: PacketRow)
    ensures
        r.proto@ == protocol_label(ev.protocol),
        r.src@ == endpoint_text(ev.src_ip, ev.src_port, ev.protocol),
        r.dst@ == endpoint_text(ev.dst_ip, ev.dst_port, ev.protocol),
        r.size@ == decimal(ev.pkt_len as nat) + seq![' ', 'B'],
{
    let mut size = String::new();
    push_decimal(&mut size, ev.pkt_len as u64);
    push_char(&mut size, ' ');
    push_char(&mut size, 'B');
    assert(size@ =~= decimal(ev.pkt_len as nat) + seq![' ', 'B']);
    PacketRow {
        proto: ev.protocol.to_string(),
        src: endpoint_string(ev.src_ip, ev.src_port, ev.protocol),
        dst: endpoint_string(ev.dst_ip, ev.dst_port, ev.protocol),
        size,
    }
}

fn labelled(label: &str, value: String) -> (s: String)
    ensures
        s@ == label@ + value@,
{
    let mut s = String::new();
    push_str(&mut s, label);
    push_str(&mut s, value.as_str());
    s
}

/// A count with thousands separators.
pub open spec fn count_text(n: u64) -> Seq<char> {
    comma_grouped(decimal(n as nat))
}

/// The five lines of the statistics panel.
pub fn stats_lines(s: &Stats) -> (lines: Vec<String>)
    ensures
        lines@.len() == 5,
        lines@[0]@ == " Total Packets : "@ + count_text(s.total_pkts),
        lines@[1]@ == " Total Bytes   : "@ + fmt_bytes_text(s.total_bytes),
        lines@[2]@ == " TCP           : "@ + count_text(s.tcp_pkts),
        lines@[3]@ == " UDP           : "@ + count_text(s.udp_pkts),
        lines@[4]@ == " ICMP          : "@ + count_text(s.icmp_pkts),
{
    let mut lines: Vec<String> = Vec::new();
    lines.push(labelled(" Total Packets : ", fmt_num(s.total_pkts)));
    lines.push(labelled(" Total Bytes   : ", fmt_bytes(s.total_bytes)));
    lines.push(labelled(" TCP           : ", fmt_num(s.tcp_pkts)));
    lines.push(labelled(" UDP           : ", fmt_num(s.udp_pkts)));
    lines.push(labelled(" ICMP          : ", fmt_num(s.icmp_pkts)));
    lines
}

/// `s` followed by spaces up to `width` characters (`{:<width}`).
pub open spec fn padded(s: Seq<char>, width: nat) -> Seq<char> {
    if s.len() >= width {
        s
    } else {
        s + Seq::new((width - s.len()) as nat, |i: int| ' ')
    }
}

/// Appends `t` left-aligned in a field of `width` characters.
pub fn push_padded(s: &mut String, t: &str, width: usize)
    ensures
        final(s)@ == old(s)@ + padded(t@, width as nat),
{
    push_str(s, t);
    let n = t.unicode_len();
    let mut k = n;
    assert(s@ =~= old(s)@ + t@ + Seq::new((k - n) as nat, |i: int| ' '));
    while k < width
        invariant
            n == t@.len(),
            k >= n,
            k <= width || k == n,
            s@ == old(s)@ + t@ + Seq::new((k - n) as nat, |i: int| ' '),
        decreases width - k,
    {
        push_char(s, ' ');
        assert(s@ =~= old(s)@ + t@ + Seq::new((k + 1 - n) as nat, |i: int| ' '));
        k = k + 1;
    }
    proof {
        if n < width {
            assert(k == width);
            assert(padded(t@, width as nat) =~= t@ + Seq::new((width - n) as nat, |i: int| ' '));
        } else {
            assert(k == n);
        }
        assert(s@ =~= old(s)@ + padded(t@, width as nat));
    }
}

/// The interface field of the information panel:
/// ` Interface : <name>` with the name left-aligned in twenty columns.
pub fn interface_field(interface: &str) -> (s: String)
    ensures
        s@ == " Interface : "@ + padded(interface@, 20),
{
    let mut s = String::new();
    push_str(&mut s, " Interface : ");
    push_padded(&mut s, interface, 20);
    s
}

/// The capture state word of the information panel.
pub open spec fn running_text(is_running: bool) -> Seq<char> {
    if is_running {
        "RUNNING"@
    } else {
        "STOPPED"@
    }
}

/// The capture state word of the information panel.
pub fn running_label(is_running: bool) -> (s: String)
    ensures
        s@ == running_text(is_running),
{
    let mut s = String::new();
    if is_running {
        push_str(&mut s, "RUNNING");
    } else {
        push_str(&mut s, "STOPPED");
    }
    proof {
        assert(Seq::<char>::empty() + "RUNNING"@ =~= "RUNNING"@);
        assert(Seq::<char>::empty() + "STOPPED"@ =~= "STOPPED"@);
    }
    s
}

/// The column header of the command-line listing.
pub fn cli_header() -> (s: String)
    ensures
        s@ == padded("SRC"@, 20) + seq![' '] + padded("DST"@, 20) + seq![' '] + padded("PROTO"@, 8)
            + " BYTES"@,
{
    let mut s = String::new();
    push_padded(&mut s, "SRC", 20);
    push_char(&mut s, ' ');
    push_padded(&mut s, "DST", 20);
    push_char(&mut s, ' ');
    push_padded(&mut s, "PROTO", 8);
    push_str(&mut s, " BYTES");
    s
}

/// The rule under the column header: sixty dashes.
pub fn cli_rule() -> (s: String)
    ensures
        s@ == Seq::new(60, |i: int| '-'),
{
    let mut s = String::new();
    let mut i: usize = 0;
    while i < 60
        invariant
            i <= 60,
            s@ == Seq::new(i as nat, |k: int| '-'),
        decreases 60 - i,
    {
        push_char(&mut s, '-');
        assert(s@ =~= Seq::new((i + 1) as nat, |k: int| '-'));
        i = i + 1;
    }
    s
}

/// One line of the command-line listing: source and destination as
/// `address:port` in columns of twenty, the protocol (its display text takes
/// no padding), and the length in bytes.
pub fn cli_row(ev: &NetworkEvent) -> (s: String)
    ensures
        s@ == padded(socket_text(ev.src_ip, ev.src_port), 20) + seq![' '] + padded(
            socket_text(ev.dst_ip, ev.dst_port),
            20,
        ) + seq![' '] + protocol_label(ev.protocol) + seq![' '] + decimal(ev.pkt_len as nat),
{
    let src = socket_string(ev.src_ip, ev.src_port);
    let dst = socket_string(ev.dst_ip, ev.dst_port);
    let proto = ev.protocol.to_string();
    let mut s = String::new();
    push_padded(&mut s, src.as_str(), 20);
    push_char(&mut s, ' ');
    push_padded(&mut s, dst.as_str(), 20);
    push_char(&mut s, ' ');
    push_str(&mut s, proto.as_str());
    push_char(&mut s, ' ');
    push_decimal(&mut s, ev.pkt_len as u64);
    s
}

} // verus!
