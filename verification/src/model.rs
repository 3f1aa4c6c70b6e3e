//! The mathematical model: address families, addresses and network ranges as
//! natural numbers, and what it means for a range to contain something.

use vstd::arithmetic::div_mod::{
    lemma_div_denominator,
    lemma_fundamental_div_mod,
    lemma_fundamental_div_mod_converse,
};
use vstd::arithmetic::power2::{
    lemma_pow2_adds,
    lemma_pow2_pos,
    lemma_pow2_strictly_increases,
    pow2,
};
use vstd::prelude::*;

verus! {

/// The two address families.
pub enum Family {
    V4,
    V6,
}

impl Family {
    /// Number of bits in an address of this family.
    pub open spec fn width(self) -> nat {
        match self {
            Family::V4 => 32,
            Family::V6 => 128,
        }
    }
}

/// A single address: its family and its value as an unsigned number.
pub struct Address {
    pub family: Family,
    pub value: nat,
}

/// A network range: a family, a base address and a prefix length.
pub struct NetworkRange {
    pub family: Family,
    pub base: nat,
    pub prefix_len: nat,
}

/// What a containment query asks about: one address or a whole range.
pub enum Target {
    Addr(Address),
    Net(NetworkRange),
}

impl NetworkRange {
    /// Number of bits below the prefix.
    pub open spec fn host_bits(self) -> nat {
        (self.family.width() - self.prefix_len) as nat
    }

    /// The base has zero host bits: it is a multiple of `2^host_bits`.
    pub open spec fn is_canonical(self) -> bool {
        self.base % pow2(self.host_bits()) == 0
    }

    /// The prefix fits the family, the base fits the width, and the range is
    /// in canonical form.
    pub open spec fn wf(self) -> bool {
        &&& self.prefix_len <= self.family.width()
        &&& self.base < pow2(self.family.width())
        &&& self.is_canonical()
    }

    /// The number of addresses in the range.
    pub open spec fn size(self) -> nat {
        pow2(self.host_bits())
    }

    /// The greatest address of a range in canonical form.
    pub open spec fn last(self) -> int {
        self.base + self.size() - 1
    }

    /// The top `prefix_len` bits of `value`, as a number.
    pub open spec fn prefix_of(self, value: nat) -> nat {
        value / pow2(self.host_bits())
    }

    /// An address is contained when it is of the same family and agrees with
    /// the base on the top `prefix_len` bits.
    pub open spec fn contains_addr(self, a: Address) -> bool {
        &&& self.family == a.family
        &&& self.prefix_of(a.value) == self.prefix_of(self.base)
    }

    /// A range is contained when it is of the same family, at least as
    /// specific, and its base agrees on the top `prefix_len` bits.
    pub open spec fn contains_net(self, other: NetworkRange) -> bool {
        &&& self.family == other.family
        &&& other.prefix_len >= self.prefix_len
        &&& self.prefix_of(other.base) == self.prefix_of(self.base)
    }

    /// Containment of either kind of target.
    pub open spec fn contains(self, t: Target) -> bool {
        match t {
            Target::Addr(a) => self.contains_addr(a),
            Target::Net(n) => self.contains_net(n),
        }
    }
}

impl Target {
    /// The family of the target.
    pub open spec fn family(self) -> Family {
        match self {
            Target::Addr(a) => a.family,
            Target::Net(n) => n.family,
        }
    }
}

/// Some range of the list contains the target.
pub open spec fn any_contains(ranges: Seq<NetworkRange>, t: Target) -> bool {
    exists|i: int| 0 <= i < ranges.len() && (#[trigger] ranges[i]).contains(t)
}

/// The ranges of one family, in the order in which they stand in `ranges`.
pub open spec fn of_family(ranges: Seq<NetworkRange>, f: Family) -> Seq<NetworkRange>
    decreases ranges.len(),
{
    if ranges.len() == 0 {
        Seq::empty()
    } else {
        let rest = of_family(ranges.drop_last(), f);
        if ranges.last().family == f {
            rest.push(ranges.last())
        } else {
            rest
        }
    }
}

/// One entry of the catalogue: an identifier and its ranges in order.
pub struct Record {
    pub id: u32,
    pub ranges: Seq<NetworkRange>,
}

impl Record {
    /// Every range of the record is well formed, and none occurs twice.
    pub open spec fn wf(self) -> bool {
        &&& forall|i: int| 0 <= i < self.ranges.len() ==> (#[trigger] self.ranges[i]).wf()
        &&& self.ranges.no_duplicates()
    }

    /// The IPv4 ranges of the record, in order.
    pub open spec fn v4_ranges(self) -> Seq<NetworkRange> {
        of_family(self.ranges, Family::V4)
    }

    /// The IPv6 ranges of the record, in order.
    pub open spec fn v6_ranges(self) -> Seq<NetworkRange> {
        of_family(self.ranges, Family::V6)
    }

    /// Some range of the record contains the target.
    pub open spec fn contains(self, t: Target) -> bool {
        any_contains(self.ranges, t)
    }
}

/// Every range contains itself.
pub proof fn lemma_contains_reflexive(r: NetworkRange)
    ensures
        r.contains_net(r),
{
}

/// A range never contains an address or a range of the other family.
pub proof fn lemma_family_mismatch(r: NetworkRange, t: Target)
    requires
        r.family != t.family(),
    ensures
        !r.contains(t),
{
}

/// A list of ranges of one family contains nothing of the other family.
pub proof fn lemma_family_mismatch_any(ranges: Seq<NetworkRange>, f: Family, t: Target)
    requires
        t.family() != f,
    ensures
        !any_contains(of_family(ranges, f), t),
{
    lemma_of_family_members(ranges, f);
}

/// Two well-formed ranges that contain each other are the same range, so a
/// range that contains a strictly more specific one is not contained by it.
pub proof fn lemma_contains_antisymmetric(a: NetworkRange, b: NetworkRange)
    requires
        a.wf(),
        b.wf(),
        a.contains_net(b),
        b.contains_net(a),
    ensures
        a == b,
{
    let d = pow2(a.host_bits()) as int;
    lemma_pow2_pos(a.host_bits());
    lemma_fundamental_div_mod(a.base as int, d);
    lemma_fundamental_div_mod(b.base as int, d);
}

/// A range that contains a more specific range is not contained by it.
pub proof fn lemma_contains_not_symmetric(a: NetworkRange, b: NetworkRange)
    requires
        a.contains_net(b),
        a.prefix_len < b.prefix_len,
    ensures
        !b.contains_net(a),
{
}

/// A well-formed range contains the addresses of its family from its base
/// up to its last address, and no others.
pub proof fn lemma_contains_addr_interval(r: NetworkRange, a: Address)
    requires
        r.wf(),
    ensures
        r.contains_addr(a) <==> (r.family == a.family && r.base <= a.value <= r.last()),
{
    lemma_same_prefix_interval(r, a.value);
}

/// A well-formed range contains another exactly when they are of one
/// family and every address of the other lies between its base and its last
/// address: it is a superset, not merely an overlap.
pub proof fn lemma_contains_net_interval(r: NetworkRange, o: NetworkRange)
    requires
        r.wf(),
        o.wf(),
    ensures
        r.contains_net(o) <==> (r.family == o.family && r.base <= o.base && o.last() <= r.last()),
{
    if r.family == o.family {
        let hr = r.host_bits();
        let ho = o.host_bits();
        let dr = pow2(hr) as int;
        let d = pow2(ho) as int;
        lemma_pow2_pos(hr);
        lemma_pow2_pos(ho);
        lemma_same_prefix_interval(r, o.base);
        if r.contains_net(o) {
            let k = pow2((hr - ho) as nat) as int;
            lemma_pow2_pos((hr - ho) as nat);
            lemma_pow2_adds(ho, (hr - ho) as nat);
            lemma_fundamental_div_mod(o.base as int, d);
            lemma_fundamental_div_mod(r.base as int, dr);
            let m = o.base as int / d;
            let q = r.base as int / dr;
            assert(r.base + dr == d * (k * (q + 1))) by (nonlinear_arith)
                requires
                    r.base == dr * q,
                    dr == d * k,
            ;
            assert(m + 1 <= k * (q + 1)) by (nonlinear_arith)
                requires
                    d * m < d * (k * (q + 1)),
                    d > 0,
            ;
            assert(d * (m + 1) <= d * (k * (q + 1))) by (nonlinear_arith)
                requires
                    m + 1 <= k * (q + 1),
                    d > 0,
            ;
            assert(d * (m + 1) == d * m + d) by (nonlinear_arith);
        }
        if r.base <= o.base && o.last() <= r.last() {
            if ho > hr {
                lemma_pow2_strictly_increases(hr, ho);
            }
        }
    }
}

/// In a well-formed range, the values that share the base's top bits are
/// those from the base up to the last address.
proof fn lemma_same_prefix_interval(r: NetworkRange, v: nat)
    requires
        r.wf(),
    ensures
        r.prefix_of(v) == r.prefix_of(r.base) <==> r.base <= v <= r.last(),
{
    let d = pow2(r.host_bits()) as int;
    lemma_pow2_pos(r.host_bits());
    lemma_fundamental_div_mod(r.base as int, d);
    lemma_fundamental_div_mod(v as int, d);
    let q = r.base as int / d;
    if r.base <= v <= r.last() {
        lemma_fundamental_div_mod_converse(v as int, d, q, v - r.base);
    }
}

/// Whatever lies in a contained range lies in the containing range.
pub proof fn lemma_contains_transitive(a: NetworkRange, b: NetworkRange, t: Target)
    requires
        a.prefix_len <= a.family.width(),
        b.prefix_len <= b.family.width(),
        a.contains_net(b),
        b.contains(t),
    ensures
        a.contains(t),
{
    let v = match t {
        Target::Addr(x) => x.value,
        Target::Net(n) => n.base,
    };
    let hb = b.host_bits();
    let ha = a.host_bits();
    let k = (ha - hb) as nat;
    lemma_pow2_pos(hb);
    lemma_pow2_pos(k);
    lemma_pow2_adds(hb, k);
    lemma_div_denominator(v as int, pow2(hb) as int, pow2(k) as int);
    lemma_div_denominator(b.base as int, pow2(hb) as int, pow2(k) as int);
}

/// The selection by family holds exactly the members of that family.
pub proof fn lemma_of_family_members(ranges: Seq<NetworkRange>, f: Family)
    ensures
        forall|j: int|
            0 <= j < of_family(ranges, f).len() ==> (#[trigger] of_family(ranges, f)[j]).family
                == f && ranges.contains(of_family(ranges, f)[j]),
        forall|i: int|
            0 <= i < ranges.len() && (#[trigger] ranges[i]).family == f ==> of_family(
                ranges,
                f,
            ).contains(ranges[i]),
    decreases ranges.len(),
{
    if ranges.len() > 0 {
        let init = ranges.drop_last();
        lemma_of_family_members(init, f);
        let sel = of_family(ranges, f);
        let rest = of_family(init, f);
        assert forall|j: int| 0 <= j < sel.len() implies (#[trigger] sel[j]).family == f
            && ranges.contains(sel[j]) by {
            if j < rest.len() {
                let i = choose|i: int| 0 <= i < init.len() && init[i] == rest[j];
                assert(ranges[i] == sel[j]);
            } else {
                assert(ranges[ranges.len() - 1] == sel[j]);
            }
        }
        assert forall|i: int| 0 <= i < ranges.len() && (#[trigger] ranges[i]).family
            == f implies sel.contains(ranges[i]) by {
            if i < init.len() {
                assert(init[i] == ranges[i]);
                let j = choose|j: int| 0 <= j < rest.len() && rest[j] == init[i];
                assert(sel[j] == ranges[i]);
            } else {
                assert(sel[sel.len() - 1] == ranges[i]);
            }
        }
    }
}

/// The selection by family keeps the order: of two of its members, the one
/// that comes first in the selection comes first in the list.
pub proof fn lemma_of_family_order(ranges: Seq<NetworkRange>, f: Family, j1: int, j2: int)
    requires
        0 <= j1 < j2 < of_family(ranges, f).len(),
    ensures
        exists|i1: int, i2: int|
            0 <= i1 < i2 < ranges.len() && #[trigger] ranges[i1] == of_family(ranges, f)[j1]
                && #[trigger] ranges[i2] == of_family(ranges, f)[j2],
    decreases ranges.len(),
{
    let init = ranges.drop_last();
    let rest = of_family(init, f);
    let sel = of_family(ranges, f);
    if j2 < rest.len() {
        lemma_of_family_order(init, f, j1, j2);
        let (i1, i2) = choose|i1: int, i2: int|
            0 <= i1 < i2 < init.len() && #[trigger] init[i1] == rest[j1] && #[trigger] init[i2]
                == rest[j2];
        assert(ranges[i1] == sel[j1] && ranges[i2] == sel[j2]);
    } else {
        lemma_of_family_members(init, f);
        let i1 = choose|i: int| 0 <= i < init.len() && init[i] == rest[j1];
        let i2 = ranges.len() - 1;
        assert(ranges[i1] == sel[j1] && ranges[i2] == sel[j2]);
    }
}

/// The two family selections split the list: their lengths add up to its
/// length.
pub proof fn lemma_partition_len(ranges: Seq<NetworkRange>)
    ensures
        of_family(ranges, Family::V4).len() + of_family(ranges, Family::V6).len() == ranges.len(),
    decreases ranges.len(),
{
    if ranges.len() > 0 {
        lemma_partition_len(ranges.drop_last());
    }
}

/// For a target of family `f`, asking the selection of that family is the
/// same as asking the whole list.
pub proof fn lemma_any_contains_of_family(ranges: Seq<NetworkRange>, t: Target)
    ensures
        any_contains(of_family(ranges, t.family()), t) == any_contains(ranges, t),
{
    let f = t.family();
    let sel = of_family(ranges, f);
    lemma_of_family_members(ranges, f);
    if any_contains(sel, t) {
        let j = choose|j: int| 0 <= j < sel.len() && (#[trigger] sel[j]).contains(t);
        let i = choose|i: int| 0 <= i < ranges.len() && ranges[i] == sel[j];
        assert(ranges[i].contains(t));
    }
    if any_contains(ranges, t) {
        let i = choose|i: int| 0 <= i < ranges.len() && (#[trigger] ranges[i]).contains(t);
        assert(ranges[i].family == f);
        let j = choose|j: int| 0 <= j < sel.len() && sel[j] == ranges[i];
        assert(sel[j].contains(t));
    }
}

} // verus!
