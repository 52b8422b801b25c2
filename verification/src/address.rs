//! Network addresses as plain values.
use vstd::prelude::*;

verus! {

/// An IP address: an IPv4 address as its 32 bits, or an IPv6 address as its 128 bits, most
/// significant first (the first octet or segment in the highest bits).
#[derive(Clone, Copy, PartialEq, Eq, Structural, Debug)]
pub enum IpAddress {
    V4(u32),
    V6(u128),
}

/// `127.0.0.0/8` for IPv4, `::1` for IPv6.
pub open spec fn spec_is_loopback(ip: IpAddress) -> bool {
    match ip {
        IpAddress::V4(bits) => bits / 0x100_0000 == 127,
        IpAddress::V6(bits) => bits == 1,
    }
}

impl IpAddress {
    /// Whether this is a loopback address.
    pub fn is_loopback(&self) -> (loopback: bool)
        ensures
            loopback == spec_is_loopback(*self),
    {
        match self {
            IpAddress::V4(bits) => *bits / 0x100_0000 == 127,
            IpAddress::V6(bits) => *bits == 1,
        }
    }
}

/// An IP address and a port.
#[derive(Clone, Copy, PartialEq, Eq, Structural, Debug)]
pub struct SocketAddress {
    pub ip: IpAddress,
    pub port: u16,
}

impl SocketAddress {
    pub fn new(ip: IpAddress, port: u16) -> (addr: SocketAddress)
        ensures
            addr.ip == ip,
            addr.port == port,
    {
        SocketAddress { ip, port }
    }
}

} // verus!
