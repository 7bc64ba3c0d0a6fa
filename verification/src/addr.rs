//! Socket addresses as plain values.

use vstd::prelude::*;

verus! {

/// An IP address: the four octets of an IPv4 address, or the 128 bits of an
/// IPv6 address.
#[derive(Debug, Clone, Copy, PartialEq, Eq, Structural)]
pub enum IpAddress {
    V4(u8, u8, u8, u8),
    V6(u128),
}

/// The address a transport endpoint is bound to or connects to.
#[derive(Debug, Clone, Copy, PartialEq, Eq, Structural)]
pub struct SocketAddress {
    pub ip: IpAddress,
    pub port: u16,
}

impl SocketAddress {
    /// The address made of `ip` and `port`.
    pub fn new(ip: IpAddress, port: u16) -> (addr: SocketAddress)
        ensures
            addr == (SocketAddress { ip, port }),
    {
        SocketAddress { ip, port }
    }

    /// The IPv4 loopback address `127.0.0.1` with the given port.
    pub fn localhost(port: u16) -> (addr: SocketAddress)
        ensures
            addr == (SocketAddress { ip: IpAddress::V4(127, 0, 0, 1), port }),
    {
        SocketAddress { ip: IpAddress::V4(127, 0, 0, 1), port }
    }
}

} // verus!
