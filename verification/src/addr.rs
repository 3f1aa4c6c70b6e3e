//! Addresses as fixed-width unsigned integers.

use crate::model::{Address, Family};
use vstd::prelude::*;

verus! {

/// An IPv4 address, held as its 32-bit value in network order.
#[derive(Clone, Copy, Debug, PartialEq, Eq, Structural, Hash)]
pub struct Ipv4Addr {
    pub bits: u32,
}

/// An IPv6 address, held as its 128-bit value in network order.
#[derive(Clone, Copy, Debug, PartialEq, Eq, Structural, Hash)]
pub struct Ipv6Addr {
    pub bits: u128,
}

/// An address of either family.
#[derive(Clone, Copy, Debug, PartialEq, Eq, Structural, Hash)]
pub enum IpAddr {
    V4(Ipv4Addr),
    V6(Ipv6Addr),
}

/// The value of the IPv4 address `a.b.c.d`.
pub open spec fn v4_value(a: nat, b: nat, c: nat, d: nat) -> nat {
    a * 0x100_0000 + b * 0x1_0000 + c * 0x100 + d
}

/// The value of the IPv6 address with the eight 16-bit groups `g0:..:g7`.
pub open spec fn v6_value(
    g0: nat,
    g1: nat,
    g2: nat,
    g3: nat,
    g4: nat,
    g5: nat,
    g6: nat,
    g7: nat,
) -> nat {
    g0 * 0x1_0000_0000_0000_0000_0000_0000_0000 + g1 * 0x1_0000_0000_0000_0000_0000_0000 + g2
        * 0x1_0000_0000_0000_0000_0000 + g3 * 0x1_0000_0000_0000_0000 + g4 * 0x1_0000_0000_0000
        + g5 * 0x1_0000_0000 + g6 * 0x1_0000 + g7
}

impl View for Ipv4Addr {
    type V = Address;

    open spec fn view(&self) -> Address {
        Address { family: Family::V4, value: self.bits as nat }
    }
}

impl View for Ipv6Addr {
    type V = Address;

    open spec fn view(&self) -> Address {
        Address { family: Family::V6, value: self.bits as nat }
    }
}

impl View for IpAddr {
    type V = Address;

    open spec fn view(&self) -> Address {
        match self {
            IpAddr::V4(a) => a@,
            IpAddr::V6(a) => a@,
        }
    }
}

impl Ipv4Addr {
    /// The address `a.b.c.d`.
    pub fn new(a: u8, b: u8, c: u8, d: u8) -> (r: Ipv4Addr)
        ensures
            r@.value == v4_value(a as nat, b as nat, c as nat, d as nat),
    {
        let bits: u32 = (a as u32) * 0x100_0000 + (b as u32) * 0x1_0000 + (c as u32) * 0x100 + (
        d as u32);
        Ipv4Addr { bits }
    }

    /// The address with the given 32-bit value.
    pub fn from_bits(bits: u32) -> (r: Ipv4Addr)
        ensures
            r.bits == bits,
    {
        Ipv4Addr { bits }
    }

    /// The 32-bit value of the address.
    pub fn to_bits(&self) -> (r: u32)
        ensures
            r == self.bits,
    {
        self.bits
    }
}

impl Ipv6Addr {
    /// The address with the eight 16-bit groups `g0:g1:g2:g3:g4:g5:g6:g7`.
    pub fn new(g0: u16, g1: u16, g2: u16, g3: u16, g4: u16, g5: u16, g6: u16, g7: u16) -> (r:
        Ipv6Addr)
        ensures
            r@.value == v6_value(
                g0 as nat,
                g1 as nat,
                g2 as nat,
                g3 as nat,
                g4 as nat,
                g5 as nat,
                g6 as nat,
                g7 as nat,
            ),
    {
        let bits: u128 = (g0 as u128) * 0x1_0000_0000_0000_0000_0000_0000_0000 + (g1 as u128)
            * 0x1_0000_0000_0000_0000_0000_0000 + (g2 as u128) * 0x1_0000_0000_0000_0000_0000 + (
        g3 as u128) * 0x1_0000_0000_0000_0000 + (g4 as u128) * 0x1_0000_0000_0000 + (g5 as u128)
            * 0x1_0000_0000 + (g6 as u128) * 0x1_0000 + (g7 as u128);
        Ipv6Addr { bits }
    }

    /// The address with the given 128-bit value.
    pub fn from_bits(bits: u128) -> (r: Ipv6Addr)
        ensures
            r.bits == bits,
    {
        Ipv6Addr { bits }
    }

    /// The 128-bit value of the address.
    pub fn to_bits(&self) -> (r: u128)
        ensures
            r == self.bits,
    {
        self.bits
    }
}

} // verus!
