//! Network addresses of peers.

use vstd::prelude::*;

verus! {

/// An IP address, held as the integer that its octets spell in network order:
/// `127.0.0.1` is `V4(0x7f00_0001)` and `::1` is `V6(1)`.
#[derive(Clone, Copy, Debug, PartialEq, Eq, Structural, Hash)]
pub enum IpAddress {
    V4(u32),
    V6(u128),
}

impl IpAddress {
    /// The address that names no host: `0.0.0.0` or `::`.
    pub open spec fn spec_is_unspecified(self) -> bool {
        match self {
            IpAddress::V4(bits) => bits == 0,
            IpAddress::V6(bits) => bits == 0,
        }
    }

    /// An address of the local host: any of `127.0.0.0/8`, or `::1`.
    pub open spec fn spec_is_loopback(self) -> bool {
        match self {
            IpAddress::V4(bits) => 0x7f00_0000 <= bits <= 0x7fff_ffff,
            IpAddress::V6(bits) => bits == 1,
        }
    }

    /// The IPv4 address `a.b.c.d`.
    pub open spec fn spec_from_octets(a: u8, b: u8, c: u8, d: u8) -> IpAddress {
        IpAddress::V4((a * 0x100_0000 + b * 0x1_0000 + c * 0x100 + d) as u32)
    }

    #[verifier::when_used_as_spec(spec_is_unspecified)]
    pub fn is_unspecified(self) -> (r: bool)
        ensures
            r == self.spec_is_unspecified(),
    {
        match self {
            IpAddress::V4(bits) => bits == 0,
            IpAddress::V6(bits) => bits == 0,
        }
    }

    #[verifier::when_used_as_spec(spec_is_loopback)]
    pub fn is_loopback(self) -> (r: bool)
        ensures
            r == self.spec_is_loopback(),
    {
        match self {
            IpAddress::V4(bits) => 0x7f00_0000 <= bits && bits <= 0x7fff_ffff,
            IpAddress::V6(bits) => bits == 1,
        }
    }

    #[verifier::when_used_as_spec(spec_from_octets)]
    pub fn from_octets(a: u8, b: u8, c: u8, d: u8) -> (ip: IpAddress)
        ensures
            ip == Self::spec_from_octets(a, b, c, d),
            ip.spec_is_loopback() <==> a == 127,
            ip.spec_is_unspecified() <==> a == 0 && b == 0 && c == 0 && d == 0,
    {
        let high: u32 = (a as u32) * 0x100_0000 + (b as u32) * 0x1_0000;
        let low: u32 = (c as u32) * 0x100 + (d as u32);
        IpAddress::V4(high + low)
    }
}

/// The address under which a peer is known: its IP address and the port on
/// which it listens.
#[derive(Clone, Copy, Debug, PartialEq, Eq, Structural, Hash)]
pub struct PeerAddress {
    pub ip: IpAddress,
    pub port: u16,
}

impl PeerAddress {
    pub fn new(ip: IpAddress, port: u16) -> (address: PeerAddress)
        ensures
            address == (PeerAddress { ip, port }),
    {
        PeerAddress { ip, port }
    }

    /// The same host under another port.
    pub open spec fn with_port(self, port: u16) -> PeerAddress {
        PeerAddress { ip: self.ip, port }
    }

    pub fn ip(&self) -> (ip: IpAddress)
        ensures
            ip == self.ip,
    {
        self.ip
    }

    pub fn port(&self) -> (port: u16)
        ensures
            port == self.port,
    {
        self.port
    }

    /// Replaces the port and keeps the host.
    pub fn set_port(&mut self, port: u16)
        ensures
            *final(self) == old(self).with_port(port),
    {
        self.port = port;
    }
}

} // verus!
