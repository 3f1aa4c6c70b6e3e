//! The catalogue: for each record its identifier and its ranges, in the
//! order in which the defining document lists them.

use crate::addr::{v4_value, v6_value, Ipv4Addr, Ipv6Addr};
use crate::model::{Family, NetworkRange, Record};
use crate::net::{IpNet, Ipv4Net, Ipv6Net};
use crate::rfc::{ranges_of, RFC};
use vstd::arithmetic::power2::{lemma2_to64, lemma_pow2_adds, pow2};
use vstd::prelude::*;

verus! {

/// The identifier of the record of addresses that must not be forwarded.
pub const FORWARDING_BLACKLIST_ID: u32 = 4294967295;

/// The IPv4 range `a.b.c.d/p`.
pub open spec fn net4(a: nat, b: nat, c: nat, d: nat, p: nat) -> NetworkRange {
    NetworkRange { family: Family::V4, base: v4_value(a, b, c, d), prefix_len: p }
}

/// The IPv6 range `g0:g1:g2:g3:g4:g5:g6:g7/p`.
pub open spec fn net6(
    g0: nat,
    g1: nat,
    g2: nat,
    g3: nat,
    g4: nat,
    g5: nat,
    g6: nat,
    g7: nat,
    p: nat,
) -> NetworkRange {
    NetworkRange { family: Family::V6, base: v6_value(g0, g1, g2, g3, g4, g5, g6, g7), prefix_len: p }
}

/// The powers of two by which the catalogue's ranges are aligned.
proof fn lemma_pow2_hosts()
    ensures
        pow2(0) == 0x1,
        pow2(3) == 0x8,
        pow2(8) == 0x100,
        pow2(16) == 0x1_0000,
        pow2(17) == 0x2_0000,
        pow2(20) == 0x10_0000,
        pow2(22) == 0x40_0000,
        pow2(24) == 0x100_0000,
        pow2(28) == 0x1000_0000,
        pow2(32) == 0x1_0000_0000,
        pow2(64) == 0x1_0000_0000_0000_0000,
        pow2(128) == 0x1_0000_0000_0000_0000_0000_0000_0000_0000,
        pow2(80) == 0x1_0000_0000_0000_0000_0000,
        pow2(96) == 0x1_0000_0000_0000_0000_0000_0000,
        pow2(100) == 0x10_0000_0000_0000_0000_0000_0000,
        pow2(105) == 0x200_0000_0000_0000_0000_0000_0000,
        pow2(112) == 0x1_0000_0000_0000_0000_0000_0000_0000,
        pow2(118) == 0x40_0000_0000_0000_0000_0000_0000_0000,
        pow2(120) == 0x100_0000_0000_0000_0000_0000_0000_0000,
        pow2(121) == 0x200_0000_0000_0000_0000_0000_0000_0000,
{
    lemma2_to64();
    lemma_pow2_adds(64, 16);
    lemma_pow2_adds(64, 32);
    lemma_pow2_adds(96, 4);
    lemma_pow2_adds(96, 9);
    lemma_pow2_adds(96, 16);
    lemma_pow2_adds(96, 22);
    lemma_pow2_adds(96, 24);
    lemma_pow2_adds(96, 25);
    lemma_pow2_adds(64, 64);
}

/// Appends the IPv4 network `a.b.c.d/p`, which is the next range of
/// `record`.
fn push4(nets: &mut Vec<IpNet>, Ghost(record): Ghost<Record>, a: u8, b: u8, c: u8, d: u8, p: u8)
    requires
        record.wf(),
        old(nets)@.len() < record.ranges.len(),
        ranges_of(old(nets)@) =~= record.ranges.take(old(nets)@.len() as int),
        record.ranges[old(nets)@.len() as int] == net4(
            a as nat,
            b as nat,
            c as nat,
            d as nat,
            p as nat,
        ),
    ensures
        final(nets)@.len() == old(nets)@.len() + 1,
        ranges_of(final(nets)@) == record.ranges.take(final(nets)@.len() as int),
{
    let net = IpNet::V4(Ipv4Net::new_assert(Ipv4Addr::new(a, b, c, d), p));
    nets.push(net);
    proof {
        assert(ranges_of(nets@) =~= record.ranges.take(nets@.len() as int));
    }
}

/// Appends the IPv6 network `g0:g1:g2:g3:g4:g5:g6:g7/p`, which is the next
/// range of `record`.
fn push6(
    nets: &mut Vec<IpNet>,
    Ghost(record): Ghost<Record>,
    g0: u16,
    g1: u16,
    g2: u16,
    g3: u16,
    g4: u16,
    g5: u16,
    g6: u16,
    g7: u16,
    p: u8,
)
    requires
        record.wf(),
        old(nets)@.len() < record.ranges.len(),
        ranges_of(old(nets)@) =~= record.ranges.take(old(nets)@.len() as int),
        record.ranges[old(nets)@.len() as int] == net6(
            g0 as nat,
            g1 as nat,
            g2 as nat,
            g3 as nat,
            g4 as nat,
            g5 as nat,
            g6 as nat,
            g7 as nat,
            p as nat,
        ),
    ensures
        final(nets)@.len() == old(nets)@.len() + 1,
        ranges_of(final(nets)@) == record.ranges.take(final(nets)@.len() as int),
{
    let net = IpNet::V6(Ipv6Net::new_assert(Ipv6Addr::new(g0, g1, g2, g3, g4, g5, g6, g7), p));
    nets.push(net);
    proof {
        assert(ranges_of(nets@) =~= record.ranges.take(nets@.len() as int));
    }
}

/// RFC 919: Broadcasting Internet Datagrams.
pub open spec fn rfc919_record() -> Record {
    Record { id: 919, ranges: seq![net4(255, 255, 255, 255, 32)] }
}

/// The range of RFC 919 is in canonical form.
pub proof fn lemma_rfc919_wf()
    ensures
        rfc919_record().wf(),
{
    lemma_pow2_hosts();
}

/// RFC 919: Broadcasting Internet Datagrams.
pub fn rfc919() -> (r: RFC)
    ensures
        r@ == rfc919_record(),
        r@.wf(),
{
    let ghost record = rfc919_record();
    proof {
        lemma_rfc919_wf();
    }
    let mut nets: Vec<IpNet> = Vec::new();
    push4(&mut nets, Ghost(record), 255, 255, 255, 255, 32);
    proof {
        assert(record.ranges.take(nets@.len() as int) == record.ranges);
    }
    RFC::new(919, nets)
}

/// RFC 1112: Host Extensions for IP Multicasting.
pub open spec fn rfc1112_record() -> Record {
    Record { id: 1112, ranges: seq![net4(224, 0, 0, 0, 4)] }
}

/// The range of RFC 1112 is in canonical form.
pub proof fn lemma_rfc1112_wf()
    ensures
        rfc1112_record().wf(),
{
    lemma_pow2_hosts();
    // Each base is a multiple of the size of its range.
    assert(v4_value(224, 0, 0, 0) % 0x1000_0000 == 0);
}

/// RFC 1112: Host Extensions for IP Multicasting.
pub fn rfc1112() -> (r: RFC)
    ensures
        r@ == rfc1112_record(),
        r@.wf(),
{
    let ghost record = rfc1112_record();
    proof {
        lemma_rfc1112_wf();
    }
    let mut nets: Vec<IpNet> = Vec::new();
    push4(&mut nets, Ghost(record), 224, 0, 0, 0, 4);
    proof {
        assert(record.ranges.take(nets@.len() as int) == record.ranges);
    }
    RFC::new(1112, nets)
}

/// RFC 1122: Requirements for Internet Hosts -- Communication Layers.
pub open spec fn rfc1122_record() -> Record {
    Record {
        id: 1122,
        ranges: seq![
            net4(0, 0, 0, 0, 8),
            net4(127, 0, 0, 0, 8),
        ],
    }
}

/// The ranges of RFC 1122 are in canonical form and differ from one another.
pub proof fn lemma_rfc1122_wf()
    ensures
        rfc1122_record().wf(),
{
    lemma_pow2_hosts();
    // Each base is a multiple of the size of its range.
    assert(v4_value(0, 0, 0, 0) % 0x100_0000 == 0);
    assert(v4_value(127, 0, 0, 0) % 0x100_0000 == 0);
}

/// RFC 1122: Requirements for Internet Hosts -- Communication Layers.
pub fn rfc1122() -> (r: RFC)
    ensures
        r@ == rfc1122_record(),
        r@.wf(),
{
    let ghost record = rfc1122_record();
    proof {
        lemma_rfc1122_wf();
    }
    let mut nets: Vec<IpNet> = Vec::new();
    push4(&mut nets, Ghost(record), 0, 0, 0, 0, 8);
    push4(&mut nets, Ghost(record), 127, 0, 0, 0, 8);
    proof {
        assert(record.ranges.take(nets@.len() as int) == record.ranges);
    }
    RFC::new(1122, nets)
}

/// RFC 1918: Address Allocation for Private Internets.
pub open spec fn rfc1918_record() -> Record {
    Record {
        id: 1918,
        ranges: seq![
            net4(10, 0, 0, 0, 8),
            net4(172, 16, 0, 0, 12),
            net4(192, 168, 0, 0, 16),
        ],
    }
}

/// The ranges of RFC 1918 are in canonical form and differ from one another.
pub proof fn lemma_rfc1918_wf()
    ensures
        rfc1918_record().wf(),
{
    lemma_pow2_hosts();
    // Each base is a multiple of the size of its range.
    assert(v4_value(10, 0, 0, 0) % 0x100_0000 == 0);
    assert(v4_value(172, 16, 0, 0) % 0x10_0000 == 0);
    assert(v4_value(192, 168, 0, 0) % 0x1_0000 == 0);
}

/// RFC 1918: Address Allocation for Private Internets.
pub fn rfc1918() -> (r: RFC)
    ensures
        r@ == rfc1918_record(),
        r@.wf(),
{
    let ghost record = rfc1918_record();
    proof {
        lemma_rfc1918_wf();
    }
    let mut nets: Vec<IpNet> = Vec::new();
    push4(&mut nets, Ghost(record), 10, 0, 0, 0, 8);
    push4(&mut nets, Ghost(record), 172, 16, 0, 0, 12);
    push4(&mut nets, Ghost(record), 192, 168, 0, 0, 16);
    proof {
        assert(record.ranges.take(nets@.len() as int) == record.ranges);
    }
    RFC::new(1918, nets)
}

/// RFC 2544: Benchmarking Methodology for Network Interconnect Devices.
pub open spec fn rfc2544_record() -> Record {
    Record { id: 2544, ranges: seq![net4(198, 18, 0, 0, 15)] }
}

/// The range of RFC 2544 is in canonical form.
pub proof fn lemma_rfc2544_wf()
    ensures
        rfc2544_record().wf(),
{
    lemma_pow2_hosts();
    // Each base is a multiple of the size of its range.
    assert(v4_value(198, 18, 0, 0) % 0x2_0000 == 0);
}

/// RFC 2544: Benchmarking Methodology for Network Interconnect Devices.
pub fn rfc2544() -> (r: RFC)
    ensures
        r@ == rfc2544_record(),
        r@.wf(),
{
    let ghost record = rfc2544_record();
    proof {
        lemma_rfc2544_wf();
    }
    let mut nets: Vec<IpNet> = Vec::new();
    push4(&mut nets, Ghost(record), 198, 18, 0, 0, 15);
    proof {
        assert(record.ranges.take(nets@.len() as int) == record.ranges);
    }
    RFC::new(2544, nets)
}

/// RFC 2765: Stateless IP/ICMP Translation Algorithm.
pub open spec fn rfc2765_record() -> Record {
    // ::ffff:0:0/96
    Record { id: 2765, ranges: seq![net6(0, 0, 0, 0, 0, 0xffff, 0, 0, 96)] }
}

/// The range of RFC 2765 is in canonical form.
pub proof fn lemma_rfc2765_wf()
    ensures
        rfc2765_record().wf(),
{
    lemma_pow2_hosts();
    // Each base is a multiple of the size of its range.
    assert(v6_value(0, 0, 0, 0, 0, 0xffff, 0, 0) % 0x1_0000_0000 == 0);
}

/// RFC 2765: Stateless IP/ICMP Translation Algorithm.
pub fn rfc2765() -> (r: RFC)
    ensures
        r@ == rfc2765_record(),
        r@.wf(),
{
    let ghost record = rfc2765_record();
    proof {
        lemma_rfc2765_wf();
    }
    let mut nets: Vec<IpNet> = Vec::new();
    push6(&mut nets, Ghost(record), 0, 0, 0, 0, 0, 0xffff, 0, 0, 96);
    proof {
        assert(record.ranges.take(nets@.len() as int) == record.ranges);
    }
    RFC::new(2765, nets)
}

/// RFC 2928: Initial IPv6 Sub-TLA ID Assignments.
pub open spec fn rfc2928_record() -> Record {
    // 2001::/16
    Record { id: 2928, ranges: seq![net6(0x2001, 0, 0, 0, 0, 0, 0, 0, 16)] }
}

/// The range of RFC 2928 is in canonical form.
pub proof fn lemma_rfc2928_wf()
    ensures
        rfc2928_record().wf(),
{
    lemma_pow2_hosts();
    // Each base is a multiple of the size of its range.
    assert(v6_value(0x2001, 0, 0, 0, 0, 0, 0, 0) % 0x1_0000_0000_0000_0000_0000_0000_0000 == 0);
}

/// RFC 2928: Initial IPv6 Sub-TLA ID Assignments.
pub fn rfc2928() -> (r: RFC)
    ensures
        r@ == rfc2928_record(),
        r@.wf(),
{
    let ghost record = rfc2928_record();
    proof {
        lemma_rfc2928_wf();
    }
    let mut nets: Vec<IpNet> = Vec::new();
    push6(&mut nets, Ghost(record), 0x2001, 0, 0, 0, 0, 0, 0, 0, 16);
    proof {
        assert(record.ranges.take(nets@.len() as int) == record.ranges);
    }
    RFC::new(2928, nets)
}

/// RFC 3056: Connection of IPv6 Domains via IPv4 Clouds.
pub open spec fn rfc3056_record() -> Record {
    // 2002::/16
    Record { id: 3056, ranges: seq![net6(0x2002, 0, 0, 0, 0, 0, 0, 0, 16)] }
}

/// The range of RFC 3056 is in canonical form.
pub proof fn lemma_rfc3056_wf()
    ensures
        rfc3056_record().wf(),
{
    lemma_pow2_hosts();
    // Each base is a multiple of the size of its range.
    assert(v6_value(0x2002, 0, 0, 0, 0, 0, 0, 0) % 0x1_0000_0000_0000_0000_0000_0000_0000 == 0);
}

/// RFC 3056: Connection of IPv6 Domains via IPv4 Clouds.
pub fn rfc3056() -> (r: RFC)
    ensures
        r@ == rfc3056_record(),
        r@.wf(),
{
    let ghost record = rfc3056_record();
    proof {
        lemma_rfc3056_wf();
    }
    let mut nets: Vec<IpNet> = Vec::new();
    push6(&mut nets, Ghost(record), 0x2002, 0, 0, 0, 0, 0, 0, 0, 16);
    proof {
        assert(record.ranges.take(nets@.len() as int) == record.ranges);
    }
    RFC::new(3056, nets)
}

/// RFC 3068: An Anycast Prefix for 6to4 Relay Routers (obsolete by RFC7526).
pub open spec fn rfc3068_record() -> Record {
    Record {
        id: 3068,
        ranges: seq![
            net4(192, 88, 99, 0, 24),
            // 2002:c058:6301::/120
            net6(0x2002, 0xc058, 0x6301, 0, 0, 0, 0, 0, 120),
        ],
    }
}

/// The ranges of RFC 3068 are in canonical form and differ from one another.
pub proof fn lemma_rfc3068_wf()
    ensures
        rfc3068_record().wf(),
{
    lemma_pow2_hosts();
    // Each base is a multiple of the size of its range.
    assert(v4_value(192, 88, 99, 0) % 0x100 == 0);
    assert(v6_value(0x2002, 0xc058, 0x6301, 0, 0, 0, 0, 0) % 0x100 == 0);
}

/// RFC 3068: An Anycast Prefix for 6to4 Relay Routers (obsolete by RFC7526).
pub fn rfc3068() -> (r: RFC)
    ensures
        r@ == rfc3068_record(),
        r@.wf(),
{
    let ghost record = rfc3068_record();
    proof {
        lemma_rfc3068_wf();
    }
    let mut nets: Vec<IpNet> = Vec::new();
    push4(&mut nets, Ghost(record), 192, 88, 99, 0, 24);
    push6(&mut nets, Ghost(record), 0x2002, 0xc058, 0x6301, 0, 0, 0, 0, 0, 120);
    proof {
        assert(record.ranges.take(nets@.len() as int) == record.ranges);
    }
    RFC::new(3068, nets)
}

/// RFC 3171: IANA Guidelines for IPv4 Multicast Address Assignments.
pub open spec fn rfc3171_record() -> Record {
    Record { id: 3171, ranges: seq![net4(224, 0, 0, 0, 4)] }
}

/// The range of RFC 3171 is in canonical form.
pub proof fn lemma_rfc3171_wf()
    ensures
        rfc3171_record().wf(),
{
    lemma_pow2_hosts();
    // Each base is a multiple of the size of its range.
    assert(v4_value(224, 0, 0, 0) % 0x1000_0000 == 0);
}

/// RFC 3171: IANA Guidelines for IPv4 Multicast Address Assignments.
pub fn rfc3171() -> (r: RFC)
    ensures
        r@ == rfc3171_record(),
        r@.wf(),
{
    let ghost record = rfc3171_record();
    proof {
        lemma_rfc3171_wf();
    }
    let mut nets: Vec<IpNet> = Vec::new();
    push4(&mut nets, Ghost(record), 224, 0, 0, 0, 4);
    proof {
        assert(record.ranges.take(nets@.len() as int) == record.ranges);
    }
    RFC::new(3171, nets)
}

/// RFC 3330: Special-Use IPv4 Addresses.
pub open spec fn rfc3330_record() -> Record {
    Record {
        id: 3330,
        ranges: seq![
            net4(0, 0, 0, 0, 8),
            net4(10, 0, 0, 0, 8),
            net4(127, 0, 0, 0, 8),
            net4(169, 254, 0, 0, 16),
            net4(172, 16, 0, 0, 12),
            net4(192, 0, 2, 0, 24),
            net4(192, 88, 99, 0, 24),
            net4(192, 168, 0, 0, 16),
            net4(198, 18, 0, 0, 15),
            net4(224, 0, 0, 0, 4),
            net4(240, 0, 0, 0, 4),
        ],
    }
}

/// The ranges of RFC 3330 are in canonical form and differ from one another.
pub proof fn lemma_rfc3330_wf()
    ensures
        rfc3330_record().wf(),
{
    lemma_pow2_hosts();
    // Each base is a multiple of the size of its range.
    assert(v4_value(0, 0, 0, 0) % 0x100_0000 == 0);
    assert(v4_value(10, 0, 0, 0) % 0x100_0000 == 0);
    assert(v4_value(127, 0, 0, 0) % 0x100_0000 == 0);
    assert(v4_value(169, 254, 0, 0) % 0x1_0000 == 0);
    assert(v4_value(172, 16, 0, 0) % 0x10_0000 == 0);
    assert(v4_value(192, 0, 2, 0) % 0x100 == 0);
    assert(v4_value(192, 88, 99, 0) % 0x100 == 0);
    assert(v4_value(192, 168, 0, 0) % 0x1_0000 == 0);
    assert(v4_value(198, 18, 0, 0) % 0x2_0000 == 0);
    assert(v4_value(224, 0, 0, 0) % 0x1000_0000 == 0);
    assert(v4_value(240, 0, 0, 0) % 0x1000_0000 == 0);
}

/// RFC 3330: Special-Use IPv4 Addresses.
pub fn rfc3330() -> (r: RFC)
    ensures
        r@ == rfc3330_record(),
        r@.wf(),
{
    let ghost record = rfc3330_record();
    proof {
        lemma_rfc3330_wf();
    }
    let mut nets: Vec<IpNet> = Vec::new();
    push4(&mut nets, Ghost(record), 0, 0, 0, 0, 8);
    push4(&mut nets, Ghost(record), 10, 0, 0, 0, 8);
    push4(&mut nets, Ghost(record), 127, 0, 0, 0, 8);
    push4(&mut nets, Ghost(record), 169, 254, 0, 0, 16);
    push4(&mut nets, Ghost(record), 172, 16, 0, 0, 12);
    push4(&mut nets, Ghost(record), 192, 0, 2, 0, 24);
    push4(&mut nets, Ghost(record), 192, 88, 99, 0, 24);
    push4(&mut nets, Ghost(record), 192, 168, 0, 0, 16);
    push4(&mut nets, Ghost(record), 198, 18, 0, 0, 15);
    push4(&mut nets, Ghost(record), 224, 0, 0, 0, 4);
    push4(&mut nets, Ghost(record), 240, 0, 0, 0, 4);
    proof {
        assert(record.ranges.take(nets@.len() as int) == record.ranges);
    }
    RFC::new(3330, nets)
}

/// RFC 3849: IPv6 Address Prefix Reserved for Documentation.
pub open spec fn rfc3849_record() -> Record {
    // 2001:db8::/32
    Record { id: 3849, ranges: seq![net6(0x2001, 0xdb8, 0, 0, 0, 0, 0, 0, 32)] }
}

/// The range of RFC 3849 is in canonical form.
pub proof fn lemma_rfc3849_wf()
    ensures
        rfc3849_record().wf(),
{
    lemma_pow2_hosts();
    // Each base is a multiple of the size of its range.
    assert(v6_value(0x2001, 0xdb8, 0, 0, 0, 0, 0, 0) % 0x1_0000_0000_0000_0000_0000_0000 == 0);
}

/// RFC 3849: IPv6 Address Prefix Reserved for Documentation.
pub fn rfc3849() -> (r: RFC)
    ensures
        r@ == rfc3849_record(),
        r@.wf(),
{
    let ghost record = rfc3849_record();
    proof {
        lemma_rfc3849_wf();
    }
    let mut nets: Vec<IpNet> = Vec::new();
    push6(&mut nets, Ghost(record), 0x2001, 0xdb8, 0, 0, 0, 0, 0, 0, 32);
    proof {
        assert(record.ranges.take(nets@.len() as int) == record.ranges);
    }
    RFC::new(3849, nets)
}

/// RFC 3927: Dynamic Configuration of IPv4 Link-Local Addresses.
pub open spec fn rfc3927_record() -> Record {
    Record { id: 3927, ranges: seq![net4(169, 254, 0, 0, 16)] }
}

/// The range of RFC 3927 is in canonical form.
pub proof fn lemma_rfc3927_wf()
    ensures
        rfc3927_record().wf(),
{
    lemma_pow2_hosts();
    // Each base is a multiple of the size of its range.
    assert(v4_value(169, 254, 0, 0) % 0x1_0000 == 0);
}

/// RFC 3927: Dynamic Configuration of IPv4 Link-Local Addresses.
pub fn rfc3927() -> (r: RFC)
    ensures
        r@ == rfc3927_record(),
        r@.wf(),
{
    let ghost record = rfc3927_record();
    proof {
        lemma_rfc3927_wf();
    }
    let mut nets: Vec<IpNet> = Vec::new();
    push4(&mut nets, Ghost(record), 169, 254, 0, 0, 16);
    proof {
        assert(record.ranges.take(nets@.len() as int) == record.ranges);
    }
    RFC::new(3927, nets)
}

/// RFC 4038: Application Aspects of IPv6 Transition.
pub open spec fn rfc4038_record() -> Record {
    // ::ffff:0:0/96
    Record { id: 4038, ranges: seq![net6(0, 0, 0, 0, 0, 0xffff, 0, 0, 96)] }
}

/// The range of RFC 4038 is in canonical form.
pub proof fn lemma_rfc4038_wf()
    ensures
        rfc4038_record().wf(),
{
    lemma_pow2_hosts();
    // Each base is a multiple of the size of its range.
    assert(v6_value(0, 0, 0, 0, 0, 0xffff, 0, 0) % 0x1_0000_0000 == 0);
}

/// RFC 4038: Application Aspects of IPv6 Transition.
pub fn rfc4038() -> (r: RFC)
    ensures
        r@ == rfc4038_record(),
        r@.wf(),
{
    let ghost record = rfc4038_record();
    proof {
        lemma_rfc4038_wf();
    }
    let mut nets: Vec<IpNet> = Vec::new();
    push6(&mut nets, Ghost(record), 0, 0, 0, 0, 0, 0xffff, 0, 0, 96);
    proof {
        assert(record.ranges.take(nets@.len() as int) == record.ranges);
    }
    RFC::new(4038, nets)
}

/// RFC 4193: Unique Local IPv6 Unicast Addresses.
pub open spec fn rfc4193_record() -> Record {
    // fc00::/7
    Record { id: 4193, ranges: seq![net6(0xfc00, 0, 0, 0, 0, 0, 0, 0, 7)] }
}

/// The range of RFC 4193 is in canonical form.
pub proof fn lemma_rfc4193_wf()
    ensures
        rfc4193_record().wf(),
{
    lemma_pow2_hosts();
    // Each base is a multiple of the size of its range.
    assert(v6_value(0xfc00, 0, 0, 0, 0, 0, 0, 0) % 0x200_0000_0000_0000_0000_0000_0000_0000 == 0);
}

/// RFC 4193: Unique Local IPv6 Unicast Addresses.
pub fn rfc4193() -> (r: RFC)
    ensures
        r@ == rfc4193_record(),
        r@.wf(),
{
    let ghost record = rfc4193_record();
    proof {
        lemma_rfc4193_wf();
    }
    let mut nets: Vec<IpNet> = Vec::new();
    push6(&mut nets, Ghost(record), 0xfc00, 0, 0, 0, 0, 0, 0, 0, 7);
    proof {
        assert(record.ranges.take(nets@.len() as int) == record.ranges);
    }
    RFC::new(4193, nets)
}

/// RFC 4291: IP Version 6 Addressing Architecture.
pub open spec fn rfc4291_record() -> Record {
    Record {
        id: 4291,
        ranges: seq![
            // ::/128
            net6(0, 0, 0, 0, 0, 0, 0, 0, 128),
            // ::1/128
            net6(0, 0, 0, 0, 0, 0, 0, 1, 128),
            // ::/96
            net6(0, 0, 0, 0, 0, 0, 0, 0, 96),
            // ::ffff:0:0/96
            net6(0, 0, 0, 0, 0, 0xffff, 0, 0, 96),
            // fe80::/10
            net6(0xfe80, 0, 0, 0, 0, 0, 0, 0, 10),
            // fec0::/10
            net6(0xfec0, 0, 0, 0, 0, 0, 0, 0, 10),
            // ff00::/8
            net6(0xff00, 0, 0, 0, 0, 0, 0, 0, 8),
        ],
    }
}

/// The ranges of RFC 4291 are in canonical form and differ from one another.
pub proof fn lemma_rfc4291_wf()
    ensures
        rfc4291_record().wf(),
{
    lemma_pow2_hosts();
    // Each base is a multiple of the size of its range.
    assert(v6_value(0, 0, 0, 0, 0, 0, 0, 0) % 0x1_0000_0000 == 0);
    assert(v6_value(0, 0, 0, 0, 0, 0xffff, 0, 0) % 0x1_0000_0000 == 0);
    assert(v6_value(0xfe80, 0, 0, 0, 0, 0, 0, 0) % 0x40_0000_0000_0000_0000_0000_0000_0000 == 0);
    assert(v6_value(0xfec0, 0, 0, 0, 0, 0, 0, 0) % 0x40_0000_0000_0000_0000_0000_0000_0000 == 0);
    assert(v6_value(0xff00, 0, 0, 0, 0, 0, 0, 0) % 0x100_0000_0000_0000_0000_0000_0000_0000 == 0);
}

/// RFC 4291: IP Version 6 Addressing Architecture.
pub fn rfc4291() -> (r: RFC)
    ensures
        r@ == rfc4291_record(),
        r@.wf(),
{
    let ghost record = rfc4291_record();
    proof {
        lemma_rfc4291_wf();
    }
    let mut nets: Vec<IpNet> = Vec::new();
    push6(&mut nets, Ghost(record), 0, 0, 0, 0, 0, 0, 0, 0, 128);
    push6(&mut nets, Ghost(record), 0, 0, 0, 0, 0, 0, 0, 1, 128);
    push6(&mut nets, Ghost(record), 0, 0, 0, 0, 0, 0, 0, 0, 96);
    push6(&mut nets, Ghost(record), 0, 0, 0, 0, 0, 0xffff, 0, 0, 96);
    push6(&mut nets, Ghost(record), 0xfe80, 0, 0, 0, 0, 0, 0, 0, 10);
    push6(&mut nets, Ghost(record), 0xfec0, 0, 0, 0, 0, 0, 0, 0, 10);
    push6(&mut nets, Ghost(record), 0xff00, 0, 0, 0, 0, 0, 0, 0, 8);
    proof {
        assert(record.ranges.take(nets@.len() as int) == record.ranges);
    }
    RFC::new(4291, nets)
}

/// RFC 4380: Teredo: Tunneling IPv6 over UDP through Network Address Translations (NATs).
pub open spec fn rfc4380_record() -> Record {
    // 2001::/32
    Record { id: 4380, ranges: seq![net6(0x2001, 0, 0, 0, 0, 0, 0, 0, 32)] }
}

/// The range of RFC 4380 is in canonical form.
pub proof fn lemma_rfc4380_wf()
    ensures
        rfc4380_record().wf(),
{
    lemma_pow2_hosts();
    // Each base is a multiple of the size of its range.
    assert(v6_value(0x2001, 0, 0, 0, 0, 0, 0, 0) % 0x1_0000_0000_0000_0000_0000_0000 == 0);
}

/// RFC 4380: Teredo: Tunneling IPv6 over UDP through Network Address Translations (NATs).
pub fn rfc4380() -> (r: RFC)
    ensures
        r@ == rfc4380_record(),
        r@.wf(),
{
    let ghost record = rfc4380_record();
    proof {
        lemma_rfc4380_wf();
    }
    let mut nets: Vec<IpNet> = Vec::new();
    push6(&mut nets, Ghost(record), 0x2001, 0, 0, 0, 0, 0, 0, 0, 32);
    proof {
        assert(record.ranges.take(nets@.len() as int) == record.ranges);
    }
    RFC::new(4380, nets)
}

/// RFC 4773: Administration of the IANA Special Purpose IPv6 Address Block.
pub open spec fn rfc4773_record() -> Record {
    // 2001::/23
    Record { id: 4773, ranges: seq![net6(0x2001, 0, 0, 0, 0, 0, 0, 0, 23)] }
}

/// The range of RFC 4773 is in canonical form.
pub proof fn lemma_rfc4773_wf()
    ensures
        rfc4773_record().wf(),
{
    lemma_pow2_hosts();
    // Each base is a multiple of the size of its range.
    assert(v6_value(0x2001, 0, 0, 0, 0, 0, 0, 0) % 0x200_0000_0000_0000_0000_0000_0000 == 0);
}

/// RFC 4773: Administration of the IANA Special Purpose IPv6 Address Block.
pub fn rfc4773() -> (r: RFC)
    ensures
        r@ == rfc4773_record(),
        r@.wf(),
{
    let ghost record = rfc4773_record();
    proof {
        lemma_rfc4773_wf();
    }
    let mut nets: Vec<IpNet> = Vec::new();
    push6(&mut nets, Ghost(record), 0x2001, 0, 0, 0, 0, 0, 0, 0, 23);
    proof {
        assert(record.ranges.take(nets@.len() as int) == record.ranges);
    }
    RFC::new(4773, nets)
}

/// RFC 4843: An IPv6 Prefix for Overlay Routable Cryptographic Hash Identifiers (ORCHID).
pub open spec fn rfc4843_record() -> Record {
    // 2001:10::/28
    Record { id: 4843, ranges: seq![net6(0x2001, 0x10, 0, 0, 0, 0, 0, 0, 28)] }
}

/// The range of RFC 4843 is in canonical form.
pub proof fn lemma_rfc4843_wf()
    ensures
        rfc4843_record().wf(),
{
    lemma_pow2_hosts();
    // Each base is a multiple of the size of its range.
    assert(v6_value(0x2001, 0x10, 0, 0, 0, 0, 0, 0) % 0x10_0000_0000_0000_0000_0000_0000 == 0);
}

/// RFC 4843: An IPv6 Prefix for Overlay Routable Cryptographic Hash Identifiers (ORCHID).
pub fn rfc4843() -> (r: RFC)
    ensures
        r@ == rfc4843_record(),
        r@.wf(),
{
    let ghost record = rfc4843_record();
    proof {
        lemma_rfc4843_wf();
    }
    let mut nets: Vec<IpNet> = Vec::new();
    push6(&mut nets, Ghost(record), 0x2001, 0x10, 0, 0, 0, 0, 0, 0, 28);
    proof {
        assert(record.ranges.take(nets@.len() as int) == record.ranges);
    }
    RFC::new(4843, nets)
}

/// RFC 5180: IPv6 Benchmarking Methodology for Network Interconnect Devices.
pub open spec fn rfc5180_record() -> Record {
    // 2001:200::/48
    Record { id: 5180, ranges: seq![net6(0x2001, 0x200, 0, 0, 0, 0, 0, 0, 48)] }
}

/// The range of RFC 5180 is in canonical form.
pub proof fn lemma_rfc5180_wf()
    ensures
        rfc5180_record().wf(),
{
    lemma_pow2_hosts();
    // Each base is a multiple of the size of its range.
    assert(v6_value(0x2001, 0x200, 0, 0, 0, 0, 0, 0) % 0x1_0000_0000_0000_0000_0000 == 0);
}

/// RFC 5180: IPv6 Benchmarking Methodology for Network Interconnect Devices.
pub fn rfc5180() -> (r: RFC)
    ensures
        r@ == rfc5180_record(),
        r@.wf(),
{
    let ghost record = rfc5180_record();
    proof {
        lemma_rfc5180_wf();
    }
    let mut nets: Vec<IpNet> = Vec::new();
    push6(&mut nets, Ghost(record), 0x2001, 0x200, 0, 0, 0, 0, 0, 0, 48);
    proof {
        assert(record.ranges.take(nets@.len() as int) == record.ranges);
    }
    RFC::new(5180, nets)
}

/// RFC 5735: Special Use IPv4 Addresses.
pub open spec fn rfc5735_record() -> Record {
    Record {
        id: 5735,
        ranges: seq![
            net4(192, 0, 2, 0, 24),
            net4(198, 51, 100, 0, 24),
            net4(203, 0, 113, 0, 24),
            net4(198, 18, 0, 0, 15),
        ],
    }
}

/// The ranges of RFC 5735 are in canonical form and differ from one another.
pub proof fn lemma_rfc5735_wf()
    ensures
        rfc5735_record().wf(),
{
    lemma_pow2_hosts();
    // Each base is a multiple of the size of its range.
    assert(v4_value(192, 0, 2, 0) % 0x100 == 0);
    assert(v4_value(198, 51, 100, 0) % 0x100 == 0);
    assert(v4_value(203, 0, 113, 0) % 0x100 == 0);
    assert(v4_value(198, 18, 0, 0) % 0x2_0000 == 0);
}

/// RFC 5735: Special Use IPv4 Addresses.
pub fn rfc5735() -> (r: RFC)
    ensures
        r@ == rfc5735_record(),
        r@.wf(),
{
    let ghost record = rfc5735_record();
    proof {
        lemma_rfc5735_wf();
    }
    let mut nets: Vec<IpNet> = Vec::new();
    push4(&mut nets, Ghost(record), 192, 0, 2, 0, 24);
    push4(&mut nets, Ghost(record), 198, 51, 100, 0, 24);
    push4(&mut nets, Ghost(record), 203, 0, 113, 0, 24);
    push4(&mut nets, Ghost(record), 198, 18, 0, 0, 15);
    proof {
        assert(record.ranges.take(nets@.len() as int) == record.ranges);
    }
    RFC::new(5735, nets)
}

/// RFC 5737: IPv4 Address Blocks Reserved for Documentation.
pub open spec fn rfc5737_record() -> Record {
    Record {
        id: 5737,
        ranges: seq![
            net4(192, 0, 2, 0, 24),
            net4(198, 51, 100, 0, 24),
            net4(203, 0, 113, 0, 24),
        ],
    }
}

/// The ranges of RFC 5737 are in canonical form and differ from one another.
pub proof fn lemma_rfc5737_wf()
    ensures
        rfc5737_record().wf(),
{
    lemma_pow2_hosts();
    // Each base is a multiple of the size of its range.
    assert(v4_value(192, 0, 2, 0) % 0x100 == 0);
    assert(v4_value(198, 51, 100, 0) % 0x100 == 0);
    assert(v4_value(203, 0, 113, 0) % 0x100 == 0);
}

/// RFC 5737: IPv4 Address Blocks Reserved for Documentation.
pub fn rfc5737() -> (r: RFC)
    ensures
        r@ == rfc5737_record(),
        r@.wf(),
{
    let ghost record = rfc5737_record();
    proof {
        lemma_rfc5737_wf();
    }
    let mut nets: Vec<IpNet> = Vec::new();
    push4(&mut nets, Ghost(record), 192, 0, 2, 0, 24);
    push4(&mut nets, Ghost(record), 198, 51, 100, 0, 24);
    push4(&mut nets, Ghost(record), 203, 0, 113, 0, 24);
    proof {
        assert(record.ranges.take(nets@.len() as int) == record.ranges);
    }
    RFC::new(5737, nets)
}

/// RFC 6052: IPv6 Addressing of IPv4/IPv6 Translators.
pub open spec fn rfc6052_record() -> Record {
    // 64:ff9b::/96
    Record { id: 6052, ranges: seq![net6(0x64, 0xff9b, 0, 0, 0, 0, 0, 0, 96)] }
}

/// The range of RFC 6052 is in canonical form.
pub proof fn lemma_rfc6052_wf()
    ensures
        rfc6052_record().wf(),
{
    lemma_pow2_hosts();
    // Each base is a multiple of the size of its range.
    assert(v6_value(0x64, 0xff9b, 0, 0, 0, 0, 0, 0) % 0x1_0000_0000 == 0);
}

/// RFC 6052: IPv6 Addressing of IPv4/IPv6 Translators.
pub fn rfc6052() -> (r: RFC)
    ensures
        r@ == rfc6052_record(),
        r@.wf(),
{
    let ghost record = rfc6052_record();
    proof {
        lemma_rfc6052_wf();
    }
    let mut nets: Vec<IpNet> = Vec::new();
    push6(&mut nets, Ghost(record), 0x64, 0xff9b, 0, 0, 0, 0, 0, 0, 96);
    proof {
        assert(record.ranges.take(nets@.len() as int) == record.ranges);
    }
    RFC::new(6052, nets)
}

/// RFC 6333: Dual-Stack Lite Broadband Deployments Following IPv4 Exhaustion.
pub open spec fn rfc6333_record() -> Record {
    Record { id: 6333, ranges: seq![net4(192, 0, 0, 0, 29)] }
}

/// The range of RFC 6333 is in canonical form.
pub proof fn lemma_rfc6333_wf()
    ensures
        rfc6333_record().wf(),
{
    lemma_pow2_hosts();
    // Each base is a multiple of the size of its range.
    assert(v4_value(192, 0, 0, 0) % 0x8 == 0);
}

/// RFC 6333: Dual-Stack Lite Broadband Deployments Following IPv4 Exhaustion.
pub fn rfc6333() -> (r: RFC)
    ensures
        r@ == rfc6333_record(),
        r@.wf(),
{
    let ghost record = rfc6333_record();
    proof {
        lemma_rfc6333_wf();
    }
    let mut nets: Vec<IpNet> = Vec::new();
    push4(&mut nets, Ghost(record), 192, 0, 0, 0, 29);
    proof {
        assert(record.ranges.take(nets@.len() as int) == record.ranges);
    }
    RFC::new(6333, nets)
}

/// RFC 6598: IANA-Reserved IPv4 Prefix for Shared Address Space.
pub open spec fn rfc6598_record() -> Record {
    Record { id: 6598, ranges: seq![net4(100, 64, 0, 0, 10)] }
}

/// The range of RFC 6598 is in canonical form.
pub proof fn lemma_rfc6598_wf()
    ensures
        rfc6598_record().wf(),
{
    lemma_pow2_hosts();
    // Each base is a multiple of the size of its range.
    assert(v4_value(100, 64, 0, 0) % 0x40_0000 == 0);
}

/// RFC 6598: IANA-Reserved IPv4 Prefix for Shared Address Space.
pub fn rfc6598() -> (r: RFC)
    ensures
        r@ == rfc6598_record(),
        r@.wf(),
{
    let ghost record = rfc6598_record();
    proof {
        lemma_rfc6598_wf();
    }
    let mut nets: Vec<IpNet> = Vec::new();
    push4(&mut nets, Ghost(record), 100, 64, 0, 0, 10);
    proof {
        assert(record.ranges.take(nets@.len() as int) == record.ranges);
    }
    RFC::new(6598, nets)
}

/// RFC 6666: A Discard Prefix for IPv6.
pub open spec fn rfc6666_record() -> Record {
    // 100::/64
    Record { id: 6666, ranges: seq![net6(0x100, 0, 0, 0, 0, 0, 0, 0, 64)] }
}

/// The range of RFC 6666 is in canonical form.
pub proof fn lemma_rfc6666_wf()
    ensures
        rfc6666_record().wf(),
{
    lemma_pow2_hosts();
    // Each base is a multiple of the size of its range.
    assert(v6_value(0x100, 0, 0, 0, 0, 0, 0, 0) % 0x1_0000_0000_0000_0000 == 0);
}

/// RFC 6666: A Discard Prefix for IPv6.
pub fn rfc6666() -> (r: RFC)
    ensures
        r@ == rfc6666_record(),
        r@.wf(),
{
    let ghost record = rfc6666_record();
    proof {
        lemma_rfc6666_wf();
    }
    let mut nets: Vec<IpNet> = Vec::new();
    push6(&mut nets, Ghost(record), 0x100, 0, 0, 0, 0, 0, 0, 0, 64);
    proof {
        assert(record.ranges.take(nets@.len() as int) == record.ranges);
    }
    RFC::new(6666, nets)
}

/// RFC 6890: Special-Purpose IP Address Registries.
pub open spec fn rfc6890_record() -> Record {
    Record {
        id: 6890,
        ranges: seq![
            net4(0, 0, 0, 0, 8),
            net4(10, 0, 0, 0, 8),
            net4(100, 64, 0, 0, 10),
            net4(127, 0, 0, 0, 8),
            net4(169, 254, 0, 0, 16),
            net4(172, 16, 0, 0, 12),
            net4(192, 0, 0, 0, 24),
            net4(192, 0, 0, 0, 29),
            net4(192, 0, 2, 0, 24),
            net4(192, 88, 99, 0, 24),
            net4(192, 168, 0, 0, 16),
            net4(198, 18, 0, 0, 15),
            net4(198, 51, 100, 0, 24),
            net4(203, 0, 113, 0, 24),
            net4(240, 0, 0, 0, 4),
            net4(255, 255, 255, 255, 32),
            // ::/128
            net6(0, 0, 0, 0, 0, 0, 0, 0, 128),
            // ::1/128
            net6(0, 0, 0, 0, 0, 0, 0, 1, 128),
            // 64:ff9b::/96
            net6(0x64, 0xff9b, 0, 0, 0, 0, 0, 0, 96),
            // ::ffff:0:0/96
            net6(0, 0, 0, 0, 0, 0xffff, 0, 0, 96),
            // 100::/64
            net6(0x100, 0, 0, 0, 0, 0, 0, 0, 64),
            // 2001::/16
            net6(0x2001, 0, 0, 0, 0, 0, 0, 0, 16),
            // 2002::/16
            net6(0x2002, 0, 0, 0, 0, 0, 0, 0, 16),
            // fc00::/7
            net6(0xfc00, 0, 0, 0, 0, 0, 0, 0, 7),
            // fe80::/10
            net6(0xfe80, 0, 0, 0, 0, 0, 0, 0, 10),
        ],
    }
}

/// The ranges of RFC 6890 are in canonical form and differ from one another.
pub proof fn lemma_rfc6890_wf()
    ensures
        rfc6890_record().wf(),
{
    lemma_pow2_hosts();
    // Each base is a multiple of the size of its range.
    assert(v4_value(0, 0, 0, 0) % 0x100_0000 == 0);
    assert(v4_value(10, 0, 0, 0) % 0x100_0000 == 0);
    assert(v4_value(100, 64, 0, 0) % 0x40_0000 == 0);
    assert(v4_value(127, 0, 0, 0) % 0x100_0000 == 0);
    assert(v4_value(169, 254, 0, 0) % 0x1_0000 == 0);
    assert(v4_value(172, 16, 0, 0) % 0x10_0000 == 0);
    assert(v4_value(192, 0, 0, 0) % 0x100 == 0);
    assert(v4_value(192, 0, 0, 0) % 0x8 == 0);
    assert(v4_value(192, 0, 2, 0) % 0x100 == 0);
    assert(v4_value(192, 88, 99, 0) % 0x100 == 0);
    assert(v4_value(192, 168, 0, 0) % 0x1_0000 == 0);
    assert(v4_value(198, 18, 0, 0) % 0x2_0000 == 0);
    assert(v4_value(198, 51, 100, 0) % 0x100 == 0);
    assert(v4_value(203, 0, 113, 0) % 0x100 == 0);
    assert(v4_value(240, 0, 0, 0) % 0x1000_0000 == 0);
    assert(v6_value(0x64, 0xff9b, 0, 0, 0, 0, 0, 0) % 0x1_0000_0000 == 0);
    assert(v6_value(0, 0, 0, 0, 0, 0xffff, 0, 0) % 0x1_0000_0000 == 0);
    assert(v6_value(0x100, 0, 0, 0, 0, 0, 0, 0) % 0x1_0000_0000_0000_0000 == 0);
    assert(v6_value(0x2001, 0, 0, 0, 0, 0, 0, 0) % 0x1_0000_0000_0000_0000_0000_0000_0000 == 0);
    assert(v6_value(0x2002, 0, 0, 0, 0, 0, 0, 0) % 0x1_0000_0000_0000_0000_0000_0000_0000 == 0);
    assert(v6_value(0xfc00, 0, 0, 0, 0, 0, 0, 0) % 0x200_0000_0000_0000_0000_0000_0000_0000 == 0);
    assert(v6_value(0xfe80, 0, 0, 0, 0, 0, 0, 0) % 0x40_0000_0000_0000_0000_0000_0000_0000 == 0);
}

/// RFC 6890: Special-Purpose IP Address Registries.
pub fn rfc6890() -> (r: RFC)
    ensures
        r@ == rfc6890_record(),
        r@.wf(),
{
    let ghost record = rfc6890_record();
    proof {
        lemma_rfc6890_wf();
    }
    let mut nets: Vec<IpNet> = Vec::new();
    push4(&mut nets, Ghost(record), 0, 0, 0, 0, 8);
    push4(&mut nets, Ghost(record), 10, 0, 0, 0, 8);
    push4(&mut nets, Ghost(record), 100, 64, 0, 0, 10);
    push4(&mut nets, Ghost(record), 127, 0, 0, 0, 8);
    push4(&mut nets, Ghost(record), 169, 254, 0, 0, 16);
    push4(&mut nets, Ghost(record), 172, 16, 0, 0, 12);
    push4(&mut nets, Ghost(record), 192, 0, 0, 0, 24);
    push4(&mut nets, Ghost(record), 192, 0, 0, 0, 29);
    push4(&mut nets, Ghost(record), 192, 0, 2, 0, 24);
    push4(&mut nets, Ghost(record), 192, 88, 99, 0, 24);
    push4(&mut nets, Ghost(record), 192, 168, 0, 0, 16);
    push4(&mut nets, Ghost(record), 198, 18, 0, 0, 15);
    push4(&mut nets, Ghost(record), 198, 51, 100, 0, 24);
    push4(&mut nets, Ghost(record), 203, 0, 113, 0, 24);
    push4(&mut nets, Ghost(record), 240, 0, 0, 0, 4);
    push4(&mut nets, Ghost(record), 255, 255, 255, 255, 32);
    push6(&mut nets, Ghost(record), 0, 0, 0, 0, 0, 0, 0, 0, 128);
    push6(&mut nets, Ghost(record), 0, 0, 0, 0, 0, 0, 0, 1, 128);
    push6(&mut nets, Ghost(record), 0x64, 0xff9b, 0, 0, 0, 0, 0, 0, 96);
    push6(&mut nets, Ghost(record), 0, 0, 0, 0, 0, 0xffff, 0, 0, 96);
    push6(&mut nets, Ghost(record), 0x100, 0, 0, 0, 0, 0, 0, 0, 64);
    push6(&mut nets, Ghost(record), 0x2001, 0, 0, 0, 0, 0, 0, 0, 16);
    push6(&mut nets, Ghost(record), 0x2002, 0, 0, 0, 0, 0, 0, 0, 16);
    push6(&mut nets, Ghost(record), 0xfc00, 0, 0, 0, 0, 0, 0, 0, 7);
    push6(&mut nets, Ghost(record), 0xfe80, 0, 0, 0, 0, 0, 0, 0, 10);
    proof {
        assert(record.ranges.take(nets@.len() as int) == record.ranges);
    }
    RFC::new(6890, nets)
}

/// RFC 7335: IPv4 Service Continuity Prefix.
pub open spec fn rfc7335_record() -> Record {
    Record { id: 7335, ranges: seq![net4(192, 0, 0, 0, 29)] }
}

/// The range of RFC 7335 is in canonical form.
pub proof fn lemma_rfc7335_wf()
    ensures
        rfc7335_record().wf(),
{
    lemma_pow2_hosts();
    // Each base is a multiple of the size of its range.
    assert(v4_value(192, 0, 0, 0) % 0x8 == 0);
}

/// RFC 7335: IPv4 Service Continuity Prefix.
pub fn rfc7335() -> (r: RFC)
    ensures
        r@ == rfc7335_record(),
        r@.wf(),
{
    let ghost record = rfc7335_record();
    proof {
        lemma_rfc7335_wf();
    }
    let mut nets: Vec<IpNet> = Vec::new();
    push4(&mut nets, Ghost(record), 192, 0, 0, 0, 29);
    proof {
        assert(record.ranges.take(nets@.len() as int) == record.ranges);
    }
    RFC::new(7335, nets)
}

/// The addresses that a forwarding device must never route, taken from
/// RFC 6890.
pub open spec fn forwarding_blacklist_record() -> Record {
    Record {
        id: FORWARDING_BLACKLIST_ID,
        ranges: seq![
            net4(0, 0, 0, 0, 8),
            net4(127, 0, 0, 0, 8),
            net4(169, 254, 0, 0, 16),
            net4(192, 0, 0, 0, 24),
            net4(192, 0, 2, 0, 24),
            net4(198, 51, 100, 0, 24),
            net4(203, 0, 113, 0, 24),
            net4(240, 0, 0, 0, 4),
            net4(255, 255, 255, 255, 32),
            // ::/128
            net6(0, 0, 0, 0, 0, 0, 0, 0, 128),
            // ::1/128
            net6(0, 0, 0, 0, 0, 0, 0, 1, 128),
            // ::ffff:0:0/96
            net6(0, 0, 0, 0, 0, 0xffff, 0, 0, 96),
            // 2001:db8::/32
            net6(0x2001, 0xdb8, 0, 0, 0, 0, 0, 0, 32),
            // 2001:10::/28
            net6(0x2001, 0x10, 0, 0, 0, 0, 0, 0, 28),
            // fe80::/10
            net6(0xfe80, 0, 0, 0, 0, 0, 0, 0, 10),
        ],
    }
}

/// The ranges of the blacklist are in canonical form and differ from one another.
pub proof fn lemma_forwarding_blacklist_wf()
    ensures
        forwarding_blacklist_record().wf(),
{
    lemma_pow2_hosts();
    // Each base is a multiple of the size of its range.
    assert(v4_value(0, 0, 0, 0) % 0x100_0000 == 0);
    assert(v4_value(127, 0, 0, 0) % 0x100_0000 == 0);
    assert(v4_value(169, 254, 0, 0) % 0x1_0000 == 0);
    assert(v4_value(192, 0, 0, 0) % 0x100 == 0);
    assert(v4_value(192, 0, 2, 0) % 0x100 == 0);
    assert(v4_value(198, 51, 100, 0) % 0x100 == 0);
    assert(v4_value(203, 0, 113, 0) % 0x100 == 0);
    assert(v4_value(240, 0, 0, 0) % 0x1000_0000 == 0);
    assert(v6_value(0, 0, 0, 0, 0, 0xffff, 0, 0) % 0x1_0000_0000 == 0);
    assert(v6_value(0x2001, 0xdb8, 0, 0, 0, 0, 0, 0) % 0x1_0000_0000_0000_0000_0000_0000 == 0);
    assert(v6_value(0x2001, 0x10, 0, 0, 0, 0, 0, 0) % 0x10_0000_0000_0000_0000_0000_0000 == 0);
    assert(v6_value(0xfe80, 0, 0, 0, 0, 0, 0, 0) % 0x40_0000_0000_0000_0000_0000_0000_0000 == 0);
}

/// The addresses that a forwarding device must never route, taken from
/// RFC 6890.
pub fn forwarding_blacklist() -> (r: RFC)
    ensures
        r@ == forwarding_blacklist_record(),
        r@.wf(),
{
    let ghost record = forwarding_blacklist_record();
    proof {
        lemma_forwarding_blacklist_wf();
    }
    let mut nets: Vec<IpNet> = Vec::new();
    push4(&mut nets, Ghost(record), 0, 0, 0, 0, 8);
    push4(&mut nets, Ghost(record), 127, 0, 0, 0, 8);
    push4(&mut nets, Ghost(record), 169, 254, 0, 0, 16);
    push4(&mut nets, Ghost(record), 192, 0, 0, 0, 24);
    push4(&mut nets, Ghost(record), 192, 0, 2, 0, 24);
    push4(&mut nets, Ghost(record), 198, 51, 100, 0, 24);
    push4(&mut nets, Ghost(record), 203, 0, 113, 0, 24);
    push4(&mut nets, Ghost(record), 240, 0, 0, 0, 4);
    push4(&mut nets, Ghost(record), 255, 255, 255, 255, 32);
    push6(&mut nets, Ghost(record), 0, 0, 0, 0, 0, 0, 0, 0, 128);
    push6(&mut nets, Ghost(record), 0, 0, 0, 0, 0, 0, 0, 1, 128);
    push6(&mut nets, Ghost(record), 0, 0, 0, 0, 0, 0xffff, 0, 0, 96);
    push6(&mut nets, Ghost(record), 0x2001, 0xdb8, 0, 0, 0, 0, 0, 0, 32);
    push6(&mut nets, Ghost(record), 0x2001, 0x10, 0, 0, 0, 0, 0, 0, 28);
    push6(&mut nets, Ghost(record), 0xfe80, 0, 0, 0, 0, 0, 0, 0, 10);
    proof {
        assert(record.ranges.take(nets@.len() as int) == record.ranges);
    }
    RFC::new(FORWARDING_BLACKLIST_ID, nets)
}

} // verus!
