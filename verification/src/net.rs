//! Addresses, sockets and directions of traffic.

use vstd::prelude::*;

verus! {

/// Direction of a packet relative to this host.
#[derive(Clone, Copy, Debug, PartialEq, Eq, Structural)]
pub enum Direction {
    Inbound,
    Outbound,
}

/// Transport protocols whose local socket can be matched to a process.
#[derive(Clone, Copy, Debug, PartialEq, Eq, Structural)]
pub enum TransportProtocol {
    Tcp,
    Udp,
}

/// An IP address held as its big-endian integer value.
#[derive(Clone, Copy, Debug, PartialEq, Eq, Structural)]
pub enum IpAddress {
    V4(u32),
    V6(u128),
}

/// A TCP or UDP socket that belongs to this host.
#[derive(Clone, Copy, Debug, PartialEq, Eq, Structural)]
pub struct LocalSocket {
    pub ip: IpAddress,
    pub port: u16,
    pub protocol: TransportProtocol,
}

} // verus!
