//! Network addresses.

use vstd::prelude::*;

verus! {

/// An IPv4 address, as its four octets.
#[derive(Clone, Copy, Debug, PartialEq, Eq, Structural)]
pub struct Ipv4Addr {
    pub a: u8,
    pub b: u8,
    pub c: u8,
    pub d: u8,
}

impl Ipv4Addr {
    /// The octets in network order.
    pub open spec fn bytes(self) -> Seq<u8> {
        seq![self.a, self.b, self.c, self.d]
    }

    /// The address as a number, the first octet being the most significant.
    pub open spec fn number(self) -> u32 {
        (self.a * 0x100_0000 + self.b * 0x1_0000 + self.c * 0x100 + self.d) as u32
    }

    /// The address 0.0.0.0.
    pub open spec fn spec_unspecified() -> Ipv4Addr {
        Ipv4Addr { a: 0, b: 0, c: 0, d: 0 }
    }

    /// The address 255.255.255.255.
    pub open spec fn spec_broadcast() -> Ipv4Addr {
        Ipv4Addr { a: 255, b: 255, c: 255, d: 255 }
    }

    /// Whether the address lies in 224.0.0.0/4.
    pub open spec fn spec_is_multicast(self) -> bool {
        224 <= self.a <= 239
    }

    /// Makes an address out of its octets.
    pub fn new(a: u8, b: u8, c: u8, d: u8) -> (addr: Ipv4Addr)
        ensures
            addr == (Ipv4Addr { a, b, c, d }),
    {
        Ipv4Addr { a, b, c, d }
    }

    /// The address 0.0.0.0, which stands for no address.
    pub fn unspecified() -> (addr: Ipv4Addr)
        ensures
            addr == Self::spec_unspecified(),
    {
        Ipv4Addr { a: 0, b: 0, c: 0, d: 0 }
    }

    /// The octets in network order.
    pub fn octets(&self) -> (octets: [u8; 4])
        ensures
            octets@ == self.bytes(),
    {
        let octets: [u8; 4] = [self.a, self.b, self.c, self.d];
        assert(octets@ =~= self.bytes());
        octets
    }

    /// The address as a number, the first octet being the most significant.
    pub fn to_bits(&self) -> (bits: u32)
        ensures
            bits == self.number(),
    {
        self.a as u32 * 0x100_0000 + self.b as u32 * 0x1_0000 + self.c as u32 * 0x100 + self.d as u32
    }

    /// Whether this is 0.0.0.0.
    pub fn is_unspecified(&self) -> (yes: bool)
        ensures
            yes == (*self == Self::spec_unspecified()),
    {
        self.a == 0 && self.b == 0 && self.c == 0 && self.d == 0
    }

    /// Whether this is 255.255.255.255.
    pub fn is_broadcast(&self) -> (yes: bool)
        ensures
            yes == (*self == Self::spec_broadcast()),
    {
        self.a == 255 && self.b == 255 && self.c == 255 && self.d == 255
    }

    /// Whether this is a multicast address.
    pub fn is_multicast(&self) -> (yes: bool)
        ensures
            yes == self.spec_is_multicast(),
    {
        self.a >= 224 && self.a <= 239
    }
}

/// A link layer address.
#[derive(Clone, Copy, Debug, PartialEq, Eq)]
pub struct MacAddress {
    pub octets: [u8; 6],
}

/// An IPv6 address, as the number whose most significant bits come first on the network.
#[derive(Clone, Copy, Debug, PartialEq, Eq, Structural)]
pub struct Ipv6Addr {
    pub bits: u128,
}

/// An IPv4 address and a port.
#[derive(Clone, Copy, Debug, PartialEq, Eq, Structural)]
pub struct SocketAddrV4 {
    pub ip: Ipv4Addr,
    pub port: u16,
}

/// An IPv6 address and a port, with the flow and the scope that go with them.
#[derive(Clone, Copy, Debug, PartialEq, Eq, Structural)]
pub struct SocketAddrV6 {
    pub ip: Ipv6Addr,
    pub port: u16,
    pub flowinfo: u32,
    pub scope_id: u32,
}

/// An Internet address and a port.
#[derive(Clone, Copy, Debug, PartialEq, Eq, Structural)]
pub enum SocketAddr {
    V4(SocketAddrV4),
    V6(SocketAddrV6),
}

/// The octets of an address are the digits of its number to the base 256, and stand on the network in that order.
pub proof fn law_octets(addr: Ipv4Addr)
    ensures
        addr.bytes() =~= seq![addr.a, addr.b, addr.c, addr.d],
        addr.number() == 256 * (256 * (256 * addr.a + addr.b) + addr.c) + addr.d,
{
}

/// Two addresses with the same number are the same.
pub proof fn law_number_tells_addresses_apart(x: Ipv4Addr, y: Ipv4Addr)
    requires
        x.number() == y.number(),
    ensures
        x == y,
{
    law_octets(x);
    law_octets(y);
}

/// The addresses that stand for no host, for all hosts and for groups of hosts.
pub proof fn law_special_addresses(addr: Ipv4Addr)
    ensures
        addr == Ipv4Addr::spec_unspecified() <==> addr.number() == 0,
        addr == Ipv4Addr::spec_broadcast() <==> addr.number() == 0xffff_ffff,
        addr.spec_is_multicast() <==> 0xe000_0000 <= addr.number() <= 0xefff_ffff,
{
    law_octets(addr);
}

} // verus!
