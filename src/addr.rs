//! Addresses as plain values: IPv4 and IPv6 addresses as integers, hardware
//! addresses as six octets.
use vstd::prelude::*;

verus! {

/// An IPv4 address; the integer holds the four octets, most significant
/// first.
#[derive(Debug, Clone, Copy, PartialEq, Eq, Structural, Hash)]
pub struct Ipv4Addr(pub u32);

/// An IPv6 address; the integer holds the sixteen octets, most significant
/// first.
#[derive(Debug, Clone, Copy, PartialEq, Eq, Structural, Hash)]
pub struct Ipv6Addr(pub u128);

/// An address of either family.
#[derive(Debug, Clone, Copy, PartialEq, Eq, Structural, Hash)]
pub enum IpAddr {
    V4(Ipv4Addr),
    V6(Ipv6Addr),
}

/// An Ethernet hardware address.
#[derive(Debug, Clone, Copy, PartialEq, Eq, Structural, Hash)]
pub struct MacAddr(pub u8, pub u8, pub u8, pub u8, pub u8, pub u8);

/// The integer of the IPv4 address `a.b.c.d`.
pub open spec fn ipv4_value(a: u8, b: u8, c: u8, d: u8) -> int {
    a as int * 0x1000000 + b as int * 0x10000 + c as int * 0x100 + d as int
}

impl Ipv4Addr {
    /// The address `a.b.c.d`.
    pub fn new(a: u8, b: u8, c: u8, d: u8) -> (r: Ipv4Addr)
        ensures
            r.0 as int == ipv4_value(a, b, c, d),
    {
        Ipv4Addr((a as u32) * 0x1000000 + (b as u32) * 0x10000 + (c as u32) * 0x100 + d as u32)
    }
}

impl MacAddr {
    /// The all-ones address that Ethernet delivers to every station.
    pub fn broadcast() -> (r: MacAddr)
        ensures
            r == MacAddr(0xff, 0xff, 0xff, 0xff, 0xff, 0xff),
    {
        MacAddr(0xff, 0xff, 0xff, 0xff, 0xff, 0xff)
    }
}

} // verus!
