//! Network addresses of remote peers, held as plain numbers.

use vstd::prelude::*;

verus! {

/// An IP address: a v4 address as its 32-bit big-endian value, a v6 address
/// as its 128-bit big-endian value.
#[derive(Clone, Copy, Debug, PartialEq, Eq, Hash, Structural)]
pub enum IpAddress {
    V4(u32),
    V6(u128),
}

/// A socket address: an IP address and a port.
#[derive(Clone, Copy, Debug, PartialEq, Eq, Hash, Structural)]
pub struct PeerAddr {
    pub ip: IpAddress,
    pub port: u16,
}

/// Loopback addresses: `127.0.0.0/8` for v4 and `::1` for v6.
pub open spec fn is_loopback_ip(ip: IpAddress) -> bool {
    match ip {
        IpAddress::V4(a) => a / 0x0100_0000 == 127,
        IpAddress::V6(a) => a == 1,
    }
}

/// Two addresses name the same remote host when their IP addresses are
/// equal; the port a connection happens to use does not take part.
pub open spec fn same_host(a: PeerAddr, b: PeerAddr) -> bool {
    a.ip == b.ip
}

impl IpAddress {
    pub fn is_loopback(&self) -> (r: bool)
        ensures
            r == is_loopback_ip(*self),
    {
        match self {
            IpAddress::V4(a) => *a / 0x0100_0000 == 127,
            IpAddress::V6(a) => *a == 1,
        }
    }
}

impl PeerAddr {
    pub fn new(ip: IpAddress, port: u16) -> (r: PeerAddr)
        ensures
            r == (PeerAddr { ip, port }),
    {
        PeerAddr { ip, port }
    }

    pub fn is_loopback(&self) -> (r: bool)
        ensures
            r == is_loopback_ip(self.ip),
    {
        self.ip.is_loopback()
    }

    pub fn same_host(&self, other: &PeerAddr) -> (r: bool)
        ensures
            r == same_host(*self, *other),
    {
        self.ip == other.ip
    }
}

} // verus!
