//! Socket addresses held as plain values.
use vstd::prelude::*;

verus! {

/// The port a server listens on when nothing else is configured.
pub const DEFAULT_PORT: u16 = 16565;

/// An IP address: IPv4 as its 32-bit big-endian value, IPv6 as its 128-bit value.
#[derive(Clone, Copy, Debug, PartialEq, Eq, Structural)]
pub enum IpAddress {
    V4(u32),
    V6(u128),
}

/// A concrete socket address: a host address and a port.
#[derive(Clone, Copy, Debug, PartialEq, Eq, Structural)]
pub struct SocketAddress {
    pub ip: IpAddress,
    pub port: u16,
}

/// Joins an IP address and a port into a socket address.
pub fn ip_addr_into_socket_addr(ip: IpAddress, port: u16) -> (r: SocketAddress)
    ensures
        r == (SocketAddress { ip, port }),
{
    SocketAddress { ip, port }
}

} // verus!
