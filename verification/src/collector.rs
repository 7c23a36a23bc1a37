//! Capture configuration, and the decisions of the capture loop that do not
//! touch the kernel: where the interface index is read and how it is parsed.

use vstd::prelude::*;
use vstd::string::StringExecFns;
use crate::text::{chars_of, parse_unsigned, parse_u32, push_str, trim_chars, trimmed};

verus! {

/// Where and how to capture.
pub struct CollectorConfig {
    pub interface: String,
    pub object_path: String,
    pub channel_capacity: usize,
    pub poll_timeout_ms: u64,
}

impl Default for CollectorConfig {
    /// Interface `eth0`, the probe object under `kamiki-ebpf/out/`, room for
    /// 8192 queued events, and a 100 ms poll timeout.
    fn default() -> (c: CollectorConfig)
        ensures
            c.interface@ == "eth0"@,
            c.object_path@ == "kamiki-ebpf/out/xdp_prober.bpf.o"@,
            c.channel_capacity == 8192,
            c.poll_timeout_ms == 100,
    {
        CollectorConfig {
            interface: String::from_str("eth0"),
            object_path: String::from_str("kamiki-ebpf/out/xdp_prober.bpf.o"),
            channel_capacity: 8192,
            poll_timeout_ms: 100,
        }
    }
}

/// The sysfs file that holds the index of `interface`.
pub open spec fn ifindex_path_of(interface: Seq<char>) -> Seq<char> {
    "/sys/class/net/"@ + interface + "/ifindex"@
}

/// The sysfs file that holds the index of `interface`.
pub fn ifindex_path(interface: &str) -> (p: String)
    ensures
        p@ == ifindex_path_of(interface@),
{
    let mut p = String::new();
    push_str(&mut p, "/sys/class/net/");
    push_str(&mut p, interface);
    push_str(&mut p, "/ifindex");
    p
}

/// The interface index that the text of an `ifindex` file holds: a decimal
/// number between optional white space.
pub fn parse_ifindex(contents: &str) -> (r: Option<u32>)
    ensures
        match r {
            Some(v) => parse_unsigned(trimmed(contents@), u32::MAX as nat) == Some(v as nat),
            None => parse_unsigned(trimmed(contents@), u32::MAX as nat) is None,
        },
{
    let chars = chars_of(contents);
    let t = trim_chars(&chars);
    parse_u32(&t)
}

} // verus!
