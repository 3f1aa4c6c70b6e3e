//! Network ranges in canonical form, and the containment test.

use crate::addr::{IpAddr, Ipv4Addr, Ipv6Addr};
use crate::model::{Family, NetworkRange};
use crate::prefix::{
    lemma_pow2_widths,
    low_bits_zero_u128,
    low_bits_zero_u32,
    top_bits_u128,
    top_bits_u32,
};
use vstd::prelude::*;

verus! {

/// Why a base address and a prefix length do not make a network range.
#[derive(Clone, Copy, Debug, PartialEq, Eq, Structural, Hash)]
pub enum NetError {
    /// The prefix is longer than an address of the family.
    PrefixLen,
    /// The base address has a bit set below the prefix.
    HostBits,
}

/// An `Ipv4Net` stands for a range of the IPv4 family.
pub proof fn lemma_v4_family(n: Ipv4Net)
    ensures
        n@.family == Family::V4,
{
}

/// An `Ipv6Net` stands for a range of the IPv6 family.
pub proof fn lemma_v6_family(n: Ipv6Net)
    ensures
        n@.family == Family::V6,
{
}

/// The range that an IPv4 base address and a prefix length denote.
pub open spec fn v4_range(addr: Ipv4Addr, prefix_len: u8) -> NetworkRange {
    NetworkRange { family: Family::V4, base: addr.bits as nat, prefix_len: prefix_len as nat }
}

/// The range that an IPv6 base address and a prefix length denote.
pub open spec fn v6_range(addr: Ipv6Addr, prefix_len: u8) -> NetworkRange {
    NetworkRange { family: Family::V6, base: addr.bits as nat, prefix_len: prefix_len as nat }
}

/// An IPv4 network range. Every value is in canonical form.
#[derive(Clone, Copy, Debug, PartialEq, Eq, Structural, Hash)]
pub struct Ipv4Net {
    addr: Ipv4Addr,
    prefix_len: u8,
}

/// An IPv6 network range. Every value is in canonical form.
#[derive(Clone, Copy, Debug, PartialEq, Eq, Structural, Hash)]
pub struct Ipv6Net {
    addr: Ipv6Addr,
    prefix_len: u8,
}

/// A network range of either family.
#[derive(Clone, Copy, Debug, PartialEq, Eq, Structural, Hash)]
pub enum IpNet {
    V4(Ipv4Net),
    V6(Ipv6Net),
}

impl View for Ipv4Net {
    type V = NetworkRange;

    closed spec fn view(&self) -> NetworkRange {
        v4_range(self.addr, self.prefix_len)
    }
}

impl View for Ipv6Net {
    type V = NetworkRange;

    closed spec fn view(&self) -> NetworkRange {
        v6_range(self.addr, self.prefix_len)
    }
}

impl View for IpNet {
    type V = NetworkRange;

    open spec fn view(&self) -> NetworkRange {
        match self {
            IpNet::V4(n) => n@,
            IpNet::V6(n) => n@,
        }
    }
}

impl Ipv4Net {
    /// Every value stands for a well-formed range.
    #[verifier::type_invariant]
    pub open spec fn inv(self) -> bool {
        self@.wf()
    }

    /// The range `addr/prefix_len`, if the prefix fits and the address has no
    /// bit set below it.
    pub fn new(addr: Ipv4Addr, prefix_len: u8) -> (r: Result<Ipv4Net, NetError>)
        ensures
            prefix_len > 32 ==> r == Err::<Ipv4Net, NetError>(NetError::PrefixLen),
            prefix_len <= 32 && !v4_range(addr, prefix_len).is_canonical() ==> r == Err::<
                Ipv4Net,
                NetError,
            >(NetError::HostBits),
            prefix_len <= 32 && v4_range(addr, prefix_len).is_canonical() ==> r is Ok
                && r.unwrap()@ == v4_range(addr, prefix_len),
    {
        if prefix_len > 32 {
            Err(NetError::PrefixLen)
        } else if !low_bits_zero_u32(addr.bits, 32 - prefix_len) {
            Err(NetError::HostBits)
        } else {
            proof {
                lemma_pow2_widths();
            }
            Ok(Ipv4Net { addr, prefix_len })
        }
    }

    /// The range `addr/prefix_len`, for a pair known to be in canonical form.
    pub fn new_assert(addr: Ipv4Addr, prefix_len: u8) -> (r: Ipv4Net)
        requires
            prefix_len <= 32,
            v4_range(addr, prefix_len).is_canonical(),
        ensures
            r@ == v4_range(addr, prefix_len),
    {
        Ipv4Net::new(addr, prefix_len).unwrap()
    }

    /// The base address. Its bits below the prefix are zero.
    pub fn addr(&self) -> (r: Ipv4Addr)
        ensures
            self@ == v4_range(r, self@.prefix_len as u8),
            self@.wf(),
    {
        proof {
            use_type_invariant(self);
        }
        self.addr
    }

    /// The prefix length, at most 32.
    pub fn prefix_len(&self) -> (r: u8)
        ensures
            r == self@.prefix_len,
            r <= 32,
            self@.family == Family::V4,
            self@.wf(),
    {
        proof {
            use_type_invariant(self);
        }
        self.prefix_len
    }

    /// Whether the address lies in this range.
    pub fn contains_addr(&self, other: &Ipv4Addr) -> (r: bool)
        ensures
            r == self@.contains_addr(other@),
    {
        proof {
            use_type_invariant(self);
        }
        let host: u8 = 32 - self.prefix_len;
        top_bits_u32(other.bits, host) == top_bits_u32(self.addr.bits, host)
    }

    /// Whether the whole of `other` lies in this range.
    pub fn contains_net(&self, other: &Ipv4Net) -> (r: bool)
        ensures
            r == self@.contains_net(other@),
    {
        proof {
            use_type_invariant(self);
        }
        let host: u8 = 32 - self.prefix_len;
        other.prefix_len >= self.prefix_len && top_bits_u32(other.addr.bits, host) == top_bits_u32(
            self.addr.bits,
            host,
        )
    }
}

impl Ipv6Net {
    /// Every value stands for a well-formed range.
    #[verifier::type_invariant]
    pub open spec fn inv(self) -> bool {
        self@.wf()
    }

    /// The range `addr/prefix_len`, if the prefix fits and the address has no
    /// bit set below it.
    pub fn new(addr: Ipv6Addr, prefix_len: u8) -> (r: Result<Ipv6Net, NetError>)
        ensures
            prefix_len > 128 ==> r == Err::<Ipv6Net, NetError>(NetError::PrefixLen),
            prefix_len <= 128 && !v6_range(addr, prefix_len).is_canonical() ==> r == Err::<
                Ipv6Net,
                NetError,
            >(NetError::HostBits),
            prefix_len <= 128 && v6_range(addr, prefix_len).is_canonical() ==> r is Ok
                && r.unwrap()@ == v6_range(addr, prefix_len),
    {
        if prefix_len > 128 {
            Err(NetError::PrefixLen)
        } else if !low_bits_zero_u128(addr.bits, 128 - prefix_len) {
            Err(NetError::HostBits)
        } else {
            proof {
                lemma_pow2_widths();
            }
            Ok(Ipv6Net { addr, prefix_len })
        }
    }

    /// The range `addr/prefix_len`, for a pair known to be in canonical form.
    pub fn new_assert(addr: Ipv6Addr, prefix_len: u8) -> (r: Ipv6Net)
        requires
            prefix_len <= 128,
            v6_range(addr, prefix_len).is_canonical(),
        ensures
            r@ == v6_range(addr, prefix_len),
    {
        Ipv6Net::new(addr, prefix_len).unwrap()
    }

    /// The base address. Its bits below the prefix are zero.
    pub fn addr(&self) -> (r: Ipv6Addr)
        ensures
            self@ == v6_range(r, self@.prefix_len as u8),
            self@.wf(),
    {
        proof {
            use_type_invariant(self);
        }
        self.addr
    }

    /// The prefix length, at most 128.
    pub fn prefix_len(&self) -> (r: u8)
        ensures
            r == self@.prefix_len,
            r <= 128,
            self@.family == Family::V6,
            self@.wf(),
    {
        proof {
            use_type_invariant(self);
        }
        self.prefix_len
    }

    /// Whether the address lies in this range.
    pub fn contains_addr(&self, other: &Ipv6Addr) -> (r: bool)
        ensures
            r == self@.contains_addr(other@),
    {
        proof {
            use_type_invariant(self);
        }
        let host: u8 = 128 - self.prefix_len;
        top_bits_u128(other.bits, host) == top_bits_u128(self.addr.bits, host)
    }

    /// Whether the whole of `other` lies in this range.
    pub fn contains_net(&self, other: &Ipv6Net) -> (r: bool)
        ensures
            r == self@.contains_net(other@),
    {
        proof {
            use_type_invariant(self);
        }
        let host: u8 = 128 - self.prefix_len;
        other.prefix_len >= self.prefix_len && top_bits_u128(other.addr.bits, host)
            == top_bits_u128(self.addr.bits, host)
    }
}

impl IpNet {
    /// The prefix length.
    pub fn prefix_len(&self) -> (r: u8)
        ensures
            r == self@.prefix_len,
            self@.wf(),
    {
        match self {
            IpNet::V4(n) => n.prefix_len(),
            IpNet::V6(n) => n.prefix_len(),
        }
    }

    /// Whether the address lies in this range. An address of the other
    /// family never does.
    pub fn contains_addr(&self, other: &IpAddr) -> (r: bool)
        ensures
            r == self@.contains_addr(other@),
    {
        match (self, other) {
            (IpNet::V4(n), IpAddr::V4(a)) => n.contains_addr(a),
            (IpNet::V6(n), IpAddr::V6(a)) => n.contains_addr(a),
            (IpNet::V4(n), IpAddr::V6(_)) => {
                proof {
                    lemma_v4_family(*n);
                }
                false
            },
            (IpNet::V6(n), IpAddr::V4(_)) => {
                proof {
                    lemma_v6_family(*n);
                }
                false
            },
        }
    }

    /// Whether the whole of `other` lies in this range. A range of the other
    /// family never does.
    pub fn contains_net(&self, other: &IpNet) -> (r: bool)
        ensures
            r == self@.contains_net(other@),
    {
        match (self, other) {
            (IpNet::V4(n), IpNet::V4(o)) => n.contains_net(o),
            (IpNet::V6(n), IpNet::V6(o)) => n.contains_net(o),
            (IpNet::V4(n), IpNet::V6(o)) => {
                proof {
                    lemma_v4_family(*n);
                    lemma_v6_family(*o);
                }
                false
            },
            (IpNet::V6(n), IpNet::V4(o)) => {
                proof {
                    lemma_v6_family(*n);
                    lemma_v4_family(*o);
                }
                false
            },
        }
    }
}

} // verus!
