//! Process context of network events.

use vstd::prelude::*;
use crate::event::Ipv4Addr;
use std::collections::HashMap;

verus! {

/// The process behind a socket.
#[derive(Clone, Debug)]
pub struct ProcessInfo {
    pub pid: u32,
    pub tgid: u32,
    pub uid: u32,
    pub comm: String,
}

/// Processes by socket inode.
pub type SocketMap = HashMap<u64, ProcessInfo>;

/// The process that owns the socket bound to a local endpoint. Socket
/// ownership is not resolved yet, so no process is ever found.
pub fn lookup_process(_src_ip: Ipv4Addr, _src_port: u16) -> (r: Option<ProcessInfo>)
    ensures
        r is None,
{
    None
}

/// The map of socket inodes to processes. Socket ownership is not resolved
/// yet, so the map is empty.
pub fn build_socket_map() -> (m: SocketMap)
    ensures
        m@ == Map::<u64, ProcessInfo>::empty(),
{
    HashMap::new()
}

/// The local endpoint and socket inode of a line of `/proc/net/tcp`. Lines
/// are not parsed yet, so nothing is found.
#[allow(dead_code)]
fn parse_proc_net_tcp_line(_line: &str) -> (r: Option<(Ipv4Addr, u16, u64)>)
    ensures
        r is None,
{
    None
}

} // verus!
