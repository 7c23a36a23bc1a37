//! Packet events: the fixed 20-byte record written by the kernel probe into
//! the ring buffer, its decoded form, and the transport protocol.

use vstd::prelude::*;
use vstd::std_specs::convert::FromSpecImpl;
use crate::text::{decimal, push_char, push_decimal, push_str};
use crate::process::ProcessInfo;

verus! {

/// An IPv4 address held as its 32-bit value (first octet most significant).
#[derive(Clone, Copy, Debug, PartialEq, Eq, Structural, Hash)]
pub struct Ipv4Addr(pub u32);

/// The four octets of an address, first octet first.
pub open spec fn octet(a: u32, i: int) -> nat {
    if i == 0 {
        (a / 0x100_0000) as nat
    } else if i == 1 {
        ((a / 0x1_0000) % 256) as nat
    } else if i == 2 {
        ((a / 0x100) % 256) as nat
    } else {
        (a % 256) as nat
    }
}

/// Dotted-quad text of an address, e.g. `192.168.1.4`.
pub open spec fn dotted_quad(a: u32) -> Seq<char> {
    decimal(octet(a, 0)) + seq!['.'] + decimal(octet(a, 1)) + seq!['.'] + decimal(octet(a, 2))
        + seq!['.'] + decimal(octet(a, 3))
}

impl Ipv4Addr {
    /// The address in dotted-quad notation.
    pub fn to_string(&self) -> (s: String)
        ensures
            s@ == dotted_quad(self.0),
    {
        let a = self.0;
        let mut s = String::new();
        push_decimal(&mut s, (a / 0x100_0000) as u64);
        push_char(&mut s, '.');
        push_decimal(&mut s, ((a / 0x1_0000) % 256) as u64);
        push_char(&mut s, '.');
        push_decimal(&mut s, ((a / 0x100) % 256) as u64);
        push_char(&mut s, '.');
        push_decimal(&mut s, (a % 256) as u64);
        s
    }
}

/// Transport protocol of a packet, decoded from its IP protocol number.
#[derive(Clone, Copy, Debug, PartialEq, Eq, Structural, Hash)]
pub enum Protocol {
    Tcp,
    Udp,
    Icmp,
    Unknown(u8),
}

/// IP protocol numbers of the protocols that have their own variant.
pub const IPPROTO_ICMP: u8 = 1;
pub const IPPROTO_TCP: u8 = 6;
pub const IPPROTO_UDP: u8 = 17;

/// The protocol that an IP protocol number stands for.
pub open spec fn protocol_of(v: u8) -> Protocol {
    if v == IPPROTO_TCP {
        Protocol::Tcp
    } else if v == IPPROTO_UDP {
        Protocol::Udp
    } else if v == IPPROTO_ICMP {
        Protocol::Icmp
    } else {
        Protocol::Unknown(v)
    }
}

/// The IP protocol number of a protocol.
pub open spec fn protocol_number(p: Protocol) -> u8 {
    match p {
        Protocol::Tcp => IPPROTO_TCP,
        Protocol::Udp => IPPROTO_UDP,
        Protocol::Icmp => IPPROTO_ICMP,
        Protocol::Unknown(n) => n,
    }
}

/// Display text of a protocol: `TCP`, `UDP`, `ICMP` or `PROTO(n)`.
pub open spec fn protocol_label(p: Protocol) -> Seq<char> {
    match p {
        Protocol::Tcp => seq!['T', 'C', 'P'],
        Protocol::Udp => seq!['U', 'D', 'P'],
        Protocol::Icmp => seq!['I', 'C', 'M', 'P'],
        Protocol::Unknown(n) => unknown_label(n),
    }
}

/// Display text of an unlisted protocol number: `PROTO(n)`.
pub open spec fn unknown_label(n: u8) -> Seq<char> {
    seq!['P', 'R', 'O', 'T', 'O', '('] + decimal(n as nat) + seq![')']
}

fn push_unknown_label(s: &mut String, n: u8)
    ensures
        final(s)@ == old(s)@ + unknown_label(n),
{
    push_str(s, "PROTO(");
    proof {
        reveal_strlit("PROTO(");
    }
    push_decimal(s, n as u64);
    push_char(s, ')');
    assert(final(s)@ =~= old(s)@ + unknown_label(n));
}

/// Reading a protocol number and writing it back gives the same number.
pub proof fn law_protocol_number_round_trip(v: u8)
    ensures
        protocol_number(protocol_of(v)) == v,
{
}

/// Writing a protocol as its number and reading it back gives the same
/// protocol, for every protocol but an `Unknown` that carries the number of
/// TCP, UDP or ICMP (which reads back as that protocol's own variant).
pub proof fn law_protocol_of_number(p: Protocol)
    requires
        p != Protocol::Unknown(IPPROTO_TCP),
        p != Protocol::Unknown(IPPROTO_UDP),
        p != Protocol::Unknown(IPPROTO_ICMP),
    ensures
        protocol_of(protocol_number(p)) == p,
{
}

impl From<u8> for Protocol {
    fn from(v: u8) -> (p: Protocol) {
        if v == IPPROTO_TCP {
            Protocol::Tcp
        } else if v == IPPROTO_UDP {
            Protocol::Udp
        } else if v == IPPROTO_ICMP {
            Protocol::Icmp
        } else {
            Protocol::Unknown(v)
        }
    }
}

impl FromSpecImpl<u8> for Protocol {
    open spec fn obeys_from_spec() -> bool {
        true
    }

    open spec fn from_spec(v: u8) -> Protocol {
        protocol_of(v)
    }
}

impl Protocol {
    /// The protocol that an IP protocol number stands for.
    pub fn from_number(v: u8) -> (p: Protocol)
        ensures
            p == protocol_of(v),
    {
        Protocol::from(v)
    }

    /// The IP protocol number of this protocol.
    pub fn number(&self) -> (n: u8)
        ensures
            n == protocol_number(*self),
    {
        match self {
            Protocol::Tcp => IPPROTO_TCP,
            Protocol::Udp => IPPROTO_UDP,
            Protocol::Icmp => IPPROTO_ICMP,
            Protocol::Unknown(n) => *n,
        }
    }

    /// Display text: `TCP`, `UDP`, `ICMP` or `PROTO(n)`.
    pub fn to_string(&self) -> (s: String)
        ensures
            s@ == protocol_label(*self),
    {
        let mut s = String::new();
        match self {
            Protocol::Tcp => {
                push_char(&mut s, 'T');
                push_char(&mut s, 'C');
                push_char(&mut s, 'P');
            },
            Protocol::Udp => {
                push_char(&mut s, 'U');
                push_char(&mut s, 'D');
                push_char(&mut s, 'P');
            },
            Protocol::Icmp => {
                push_char(&mut s, 'I');
                push_char(&mut s, 'C');
                push_char(&mut s, 'M');
                push_char(&mut s, 'P');
            },
            Protocol::Unknown(n) => {
                push_unknown_label(&mut s, *n);
            },
        }
        s
    }
}

/// Wall-clock time as a signed distance from the Unix epoch: `secs` whole
/// seconds and `nanos` nanoseconds, after the epoch or, if `before_epoch`,
/// before it.
#[derive(Clone, Copy, Debug, PartialEq, Eq, Structural)]
pub struct Timestamp {
    pub secs: u64,
    pub nanos: u32,
    pub before_epoch: bool,
}

impl Timestamp {
    pub open spec fn wf(self) -> bool {
        self.nanos < 1_000_000_000
    }

    /// The whole seconds since the epoch (`tv_sec`), rounded down, so negative
    /// before the epoch.
    pub open spec fn unix_secs(self) -> int {
        if !self.before_epoch {
            self.secs as int
        } else if self.nanos == 0 {
            -(self.secs as int)
        } else {
            -(self.secs as int) - 1
        }
    }

    /// The nanoseconds past `unix_secs` (`tv_nsec`).
    pub open spec fn unix_nanos(self) -> int {
        if self.before_epoch && self.nanos > 0 {
            1_000_000_000 - self.nanos
        } else {
            self.nanos as int
        }
    }
}

/// The current wall-clock time: `SystemTime::now()` measured from the Unix
/// epoch with `duration_since`, whose error, for a clock set before the
/// epoch, carries the distance the other way. What time it reads is not
/// stated: only that the sub-second part is below one second.
#[verifier::external_body]
pub(crate) fn unix_time_now() -> (t: Timestamp)
    ensures
        t.wf(),
{
    match std::time::SystemTime::now().duration_since(std::time::UNIX_EPOCH) {
        Ok(d) => Timestamp { secs: d.as_secs(), nanos: d.subsec_nanos(), before_epoch: false },
        Err(e) => Timestamp {
            secs: e.duration().as_secs(),
            nanos: e.duration().subsec_nanos(),
            before_epoch: true,
        },
    }
}

/// Size in bytes of the record that the kernel probe writes per packet.
pub const RAW_EVENT_SIZE: usize = 20;

/// The record written by the kernel probe into the ring buffer. Its byte
/// layout is: source address (4 bytes), destination address (4), source port
/// (2), destination port (2), protocol number (1), padding (3), packet length
/// (4); every multi-byte field in the byte order of the host that the probe
/// runs on.
#[derive(Clone, Copy, Debug)]
pub struct RawPktEvent {
    pub src_ip: u32,
    pub dst_ip: u32,
    pub src_port: u16,
    pub dst_port: u16,
    pub protocol: u8,
    pub _pad: [u8; 3],
    pub pkt_len: u32,
}

/// Little-endian value of `len` bytes of `b` starting at `at`.
pub open spec fn le_value(b: Seq<u8>, at: int, len: nat) -> nat
    decreases len,
{
    if len == 0 {
        0
    } else {
        b[at] as nat + 256 * le_value(b, at + 1, (len - 1) as nat)
    }
}

/// Big-endian value of `len` bytes of `b` starting at `at`.
pub open spec fn be_value(b: Seq<u8>, at: int, len: nat) -> nat
    decreases len,
{
    if len == 0 {
        0
    } else {
        be_value(b, at, (len - 1) as nat) * 256 + b[at + len - 1] as nat
    }
}

/// The value of `len` bytes of `b` starting at `at`, in the given byte order.
pub open spec fn ordered_value(b: Seq<u8>, at: int, len: nat, little_endian: bool) -> nat {
    if little_endian {
        le_value(b, at, len)
    } else {
        be_value(b, at, len)
    }
}

/// A decoded, host-side packet event.
#[derive(Clone, Debug)]
pub struct NetworkEvent {
    pub src_ip: Ipv4Addr,
    pub dst_ip: Ipv4Addr,
    pub src_port: u16,
    pub dst_port: u16,
    pub protocol: Protocol,
    pub pkt_len: u32,
    pub timestamp: Timestamp,
    pub process: Option<ProcessInfo>,
}

fn le_u16(data: &[u8], at: usize) -> (v: u16)
    requires
        at + 2 <= data@.len(),
    ensures
        v as nat == le_value(data@, at as int, 2),
{
    proof {
        reveal_with_fuel(le_value, 3);
    }
    (data[at] as u16) + 256 * (data[at + 1] as u16)
}

fn le_u32(data: &[u8], at: usize) -> (v: u32)
    requires
        at + 4 <= data@.len(),
    ensures
        v as nat == le_value(data@, at as int, 4),
{
    proof {
        reveal_with_fuel(le_value, 5);
    }
    (data[at] as u32) + 256 * ((data[at + 1] as u32) + 256 * ((data[at + 2] as u32) + 256 * (
    data[at + 3] as u32)))
}

fn be_u16(data: &[u8], at: usize) -> (v: u16)
    requires
        at + 2 <= data@.len(),
    ensures
        v as nat == be_value(data@, at as int, 2),
{
    proof {
        reveal_with_fuel(be_value, 3);
    }
    (data[at] as u16) * 256 + (data[at + 1] as u16)
}

fn be_u32(data: &[u8], at: usize) -> (v: u32)
    requires
        at + 4 <= data@.len(),
    ensures
        v as nat == be_value(data@, at as int, 4),
{
    proof {
        reveal_with_fuel(be_value, 5);
    }
    (((data[at] as u32) * 256 + (data[at + 1] as u32)) * 256 + (data[at + 2] as u32)) * 256 + (
    data[at + 3] as u32)
}

fn ordered_u16(data: &[u8], at: usize, little_endian: bool) -> (v: u16)
    requires
        at + 2 <= data@.len(),
    ensures
        v as nat == ordered_value(data@, at as int, 2, little_endian),
{
    if little_endian {
        le_u16(data, at)
    } else {
        be_u16(data, at)
    }
}

fn ordered_u32(data: &[u8], at: usize, little_endian: bool) -> (v: u32)
    requires
        at + 4 <= data@.len(),
    ensures
        v as nat == ordered_value(data@, at as int, 4, little_endian),
{
    if little_endian {
        le_u32(data, at)
    } else {
        be_u32(data, at)
    }
}

/// `u16::to_ne_bytes` of one: the two bytes of the number one in the host's
/// byte order, so one of the two orders of a one and a zero.
#[verifier::external_body]
fn ne_bytes_of_one() -> (b: [u8; 2])
    ensures
        (b@[0] == 1 && b@[1] == 0) || (b@[0] == 0 && b@[1] == 1),
{
    1u16.to_ne_bytes()
}

/// Whether the host stores numbers least significant byte first.
pub fn host_is_little_endian() -> (b: bool) {
    let one = ne_bytes_of_one();
    one[0] == 1
}

impl RawPktEvent {
    /// The record that `data` holds in the given byte order, where it is at
    /// least one record long.
    pub open spec fn spec_from_bytes(data: Seq<u8>, little_endian: bool) -> Option<RawPktEvent> {
        if data.len() < RAW_EVENT_SIZE {
            None
        } else {
            Some(
                RawPktEvent {
                    src_ip: ordered_value(data, 0, 4, little_endian) as u32,
                    dst_ip: ordered_value(data, 4, 4, little_endian) as u32,
                    src_port: ordered_value(data, 8, 2, little_endian) as u16,
                    dst_port: ordered_value(data, 10, 2, little_endian) as u16,
                    protocol: data[12],
                    _pad: [data[13], data[14], data[15]],
                    pkt_len: ordered_value(data, 16, 4, little_endian) as u32,
                },
            )
        }
    }

    /// Reads one record, written in the given byte order, from the start of a
    /// ring-buffer sample; `None` for a sample shorter than a record.
    pub fn from_bytes_in_order(data: &[u8], little_endian: bool) -> (r: Option<RawPktEvent>)
        ensures
            r == Self::spec_from_bytes(data@, little_endian),
    {
        if data.len() < RAW_EVENT_SIZE {
            return None;
        }
        Some(
            RawPktEvent {
                src_ip: ordered_u32(data, 0, little_endian),
                dst_ip: ordered_u32(data, 4, little_endian),
                src_port: ordered_u16(data, 8, little_endian),
                dst_port: ordered_u16(data, 10, little_endian),
                protocol: data[12],
                _pad: [data[13], data[14], data[15]],
                pkt_len: ordered_u32(data, 16, little_endian),
            },
        )
    }

    /// Reads one record, written in the host's byte order, from the start of
    /// a ring-buffer sample; `None` for a sample shorter than a record. Which
    /// byte order the host has is not stated: the record is read in one of
    /// the two.
    pub fn from_bytes(data: &[u8]) -> (r: Option<RawPktEvent>)
        ensures
            exists|little_endian: bool| r == #[trigger] Self::spec_from_bytes(data@, little_endian),
    {
        let little_endian = host_is_little_endian();
        Self::from_bytes_in_order(data, little_endian)
    }

    /// The event that this record describes, stamped with `timestamp`.
    pub open spec fn spec_decode_at(self, timestamp: Timestamp) -> NetworkEvent {
        NetworkEvent {
            src_ip: Ipv4Addr(self.src_ip),
            dst_ip: Ipv4Addr(self.dst_ip),
            src_port: self.src_port,
            dst_port: self.dst_port,
            protocol: protocol_of(self.protocol),
            pkt_len: self.pkt_len,
            timestamp,
            process: None,
        }
    }

    /// Decoding keeps every field of the record: the two addresses, the two
    /// ports, the protocol number and the length, and takes the given time.
    pub proof fn law_decode_keeps_fields(self, timestamp: Timestamp)
        ensures
            self.spec_decode_at(timestamp).src_ip.0 == self.src_ip,
            self.spec_decode_at(timestamp).dst_ip.0 == self.dst_ip,
            self.spec_decode_at(timestamp).src_port == self.src_port,
            self.spec_decode_at(timestamp).dst_port == self.dst_port,
            protocol_number(self.spec_decode_at(timestamp).protocol) == self.protocol,
            self.spec_decode_at(timestamp).pkt_len == self.pkt_len,
            self.spec_decode_at(timestamp).timestamp == timestamp,
            self.spec_decode_at(timestamp).process is None,
    {
        law_protocol_number_round_trip(self.protocol);
    }

    /// Decodes the record into an event stamped with `timestamp`.
    pub fn decode_at(self, timestamp: Timestamp) -> (e: NetworkEvent)
        ensures
            e == self.spec_decode_at(timestamp),
            e.src_ip.0 == self.src_ip,
            e.dst_ip.0 == self.dst_ip,
            e.src_port == self.src_port,
            e.dst_port == self.dst_port,
            protocol_number(e.protocol) == self.protocol,
            e.pkt_len == self.pkt_len,
            e.timestamp == timestamp,
            e.process is None,
    {
        NetworkEvent {
            src_ip: Ipv4Addr(self.src_ip),
            dst_ip: Ipv4Addr(self.dst_ip),
            src_port: self.src_port,
            dst_port: self.dst_port,
            protocol: Protocol::from_number(self.protocol),
            pkt_len: self.pkt_len,
            timestamp,
            process: None,
        }
    }

    /// Decodes the record into an event stamped with the current time.
    pub fn decode(self) -> (e: NetworkEvent)
        ensures
            exists|t: Timestamp| t.wf() && e == self.spec_decode_at(t),
            e.src_ip.0 == self.src_ip,
            e.dst_ip.0 == self.dst_ip,
            e.src_port == self.src_port,
            e.dst_port == self.dst_port,
            protocol_number(e.protocol) == self.protocol,
            e.pkt_len == self.pkt_len,
            e.process is None,
    {
        let t = unix_time_now();
        self.decode_at(t)
    }
}

} // verus!
