//! Selections of registry entries as bit sets: bit `i` stands for the entry
//! at index `i` of the registry.

use crate::catalogue::FORWARDING_BLACKLIST_ID;
use crate::registry::{ids, lemma_ids_ascending, REGISTRY_LEN};
use vstd::prelude::*;

verus! {

/// The number of bits that stand for an entry: one for each record of the
/// registry.
pub const FILTER_BITS: usize = REGISTRY_LEN;

/// The bits of the selection of every entry.
pub const FILTER_MASK: u128 = 0x1FFF_FFFF;

/// Whether bit `i` of `bits` is set.
pub open spec fn bit_at(bits: u128, i: nat) -> bool {
    (bits >> (i as u128)) & 1 == 1
}

/// The indices of the registry entries whose identifier is `id`.
pub open spec fn selection_of(id: u32) -> Set<nat> {
    Set::new(|i: nat| i < ids().len() && ids()[i as int] == id)
}

/// A selection of registry entries.
#[derive(Debug, Copy, Clone, Eq, PartialEq, Structural, Ord, PartialOrd, Hash)]
pub struct Filter {
    bits: u128,
}

impl View for Filter {
    type V = Set<nat>;

    /// The indices of the selected entries.
    open spec fn view(&self) -> Set<nat> {
        Set::new(|i: nat| i < FILTER_BITS && bit_at(self.spec_bits(), i))
    }
}

/// A bit of `a | b` is set when it is set in `a` or in `b`.
proof fn lemma_or_bits(a: u128, b: u128)
    by (bit_vector)
    ensures
        a <= 0x1FFF_FFFF && b <= 0x1FFF_FFFF ==> (a | b) <= 0x1FFF_FFFF,
        forall|i: u128|
            i < 128 ==> ((#[trigger] ((a | b) >> i)) & 1 == 1 <==> ((a >> i) & 1 == 1 || (b >> i)
                & 1 == 1)),
{
}

/// A bit of `a & b` is set when it is set in `a` and in `b`.
proof fn lemma_and_bits(a: u128, b: u128)
    by (bit_vector)
    ensures
        a <= 0x1FFF_FFFF ==> (a & b) <= 0x1FFF_FFFF,
        forall|i: u128|
            i < 128 ==> ((#[trigger] ((a & b) >> i)) & 1 == 1 <==> ((a >> i) & 1 == 1 && (b >> i)
                & 1 == 1)),
{
}

/// Among the bits of the mask, those of `!a` are the ones not set in `a`.
proof fn lemma_not_bits(a: u128)
    by (bit_vector)
    ensures
        (!a & 0x1FFF_FFFF) <= 0x1FFF_FFFF,
        forall|i: u128|
            i < 29 ==> ((#[trigger] ((!a & 0x1FFF_FFFF) >> i)) & 1 == 1 <==> (a >> i) & 1 != 1),
{
}

/// `1 << k` has bit `k` set and no other.
proof fn lemma_one_bit(k: u128)
    by (bit_vector)
    requires
        k < 29,
    ensures
        (1u128 << k) <= 0x1FFF_FFFF,
        forall|i: u128| i < 128 ==> ((#[trigger] ((1u128 << k) >> i)) & 1 == 1 <==> i == k),
{
}

/// Zero has no bit set; the mask has every bit of an entry set.
proof fn lemma_fixed_bits()
    by (bit_vector)
    ensures
        forall|i: u128| i < 128 ==> (#[trigger] (0u128 >> i)) & 1 != 1,
        forall|i: u128| i < 29 ==> (#[trigger] (0x1FFF_FFFFu128 >> i)) & 1 == 1,
{
}

impl Filter {
    #[verifier::type_invariant]
    spec fn inv(self) -> bool {
        self.bits <= FILTER_MASK
    }

    /// The bits of the selection, bit `i` for the entry at index `i`.
    pub closed spec fn spec_bits(self) -> u128 {
        self.bits
    }

    /// The selection of what either selection holds.
    pub closed spec fn spec_union(self, other: Filter) -> Filter {
        Filter { bits: self.bits | other.bits }
    }

    /// The union of two selections selects what either of them selects.
    pub proof fn lemma_union(self, other: Filter)
        ensures
            self.spec_union(other)@ == self@.union(other@),
    {
        lemma_or_bits(self.bits, other.bits);
        assert(self.spec_union(other)@ =~= self@.union(other@));
    }

    /// The selection of nothing.
    pub fn empty() -> (r: Filter)
        ensures
            r@ == Set::<nat>::empty(),
            r.spec_bits() == 0,
    {
        proof {
            lemma_fixed_bits();
        }
        let r = Filter { bits: 0 };
        assert(r@ =~= Set::<nat>::empty());
        r
    }

    /// The selection of every entry.
    pub fn all() -> (r: Filter)
        ensures
            r@ == Set::new(|i: nat| i < FILTER_BITS),
            r.spec_bits() == FILTER_MASK,
    {
        proof {
            lemma_fixed_bits();
        }
        let r = Filter { bits: FILTER_MASK };
        assert(r@ =~= Set::new(|i: nat| i < FILTER_BITS));
        r
    }

    /// The selection with the given bits, if none of them is beyond the
    /// entries.
    pub fn from_bits(bits: u128) -> (r: Option<Filter>)
        ensures
            r is Some <==> bits <= FILTER_MASK,
            r is Some ==> r.unwrap().spec_bits() == bits,
    {
        if bits <= FILTER_MASK {
            Some(Filter { bits })
        } else {
            None
        }
    }

    /// The bits of the selection.
    pub fn bits(&self) -> (r: u128)
        ensures
            r == self.spec_bits(),
            r <= FILTER_MASK,
    {
        proof {
            use_type_invariant(self);
        }
        self.bits
    }

    /// The selection of the entry at `index` alone, which is the selection
    /// by that entry's identifier.
    pub fn single(index: usize) -> (r: Filter)
        requires
            index < FILTER_BITS,
        ensures
            r@ == set![index as nat],
            r@ == selection_of(ids()[index as int]),
    {
        proof {
            lemma_one_bit(index as u128);
            lemma_ids_ascending();
        }
        let r = Filter { bits: 1u128 << (index as u128) };
        assert(r@ =~= set![index as nat]);
        assert(r@ =~= selection_of(ids()[index as int]));
        r
    }

    /// Whether the entry at `index` is selected.
    pub fn is_set(&self, index: usize) -> (r: bool)
        ensures
            r == self@.contains(index as nat),
    {
        index < FILTER_BITS && (self.bits >> (index as u128)) & 1 == 1
    }

    /// The selection of what either selection holds.
    pub fn union(self, other: Filter) -> (r: Filter)
        ensures
            r == self.spec_union(other),
            r@ == self@.union(other@),
    {
        proof {
            use_type_invariant(self);
            use_type_invariant(other);
            lemma_or_bits(self.bits, other.bits);
            self.lemma_union(other);
        }
        Filter { bits: self.bits | other.bits }
    }

    /// The selection of what both selections hold.
    pub fn intersection(self, other: Filter) -> (r: Filter)
        ensures
            r@ == self@.intersect(other@),
    {
        proof {
            use_type_invariant(self);
            lemma_and_bits(self.bits, other.bits);
        }
        let r = Filter { bits: self.bits & other.bits };
        assert(r@ =~= self@.intersect(other@));
        r
    }

    /// The selection of the entries that this one leaves out.
    pub fn complement(self) -> (r: Filter)
        ensures
            r@ == Set::new(|i: nat| i < FILTER_BITS && !self@.contains(i)),
    {
        proof {
            lemma_not_bits(self.bits);
        }
        let r = Filter { bits: !self.bits & FILTER_MASK };
        assert(r@ =~= Set::new(|i: nat| i < FILTER_BITS && !self@.contains(i)));
        r
    }


    /// The selection of RFC 919 alone.
    pub fn rfc919() -> (r: Filter)
        ensures
            r@ == set![0nat],
            r@ == selection_of(919),
    {
        Filter::single(0)
    }

    /// The selection of RFC 1112 alone.
    pub fn rfc1112() -> (r: Filter)
        ensures
            r@ == set![1nat],
            r@ == selection_of(1112),
    {
        Filter::single(1)
    }

    /// The selection of RFC 1122 alone.
    pub fn rfc1122() -> (r: Filter)
        ensures
            r@ == set![2nat],
            r@ == selection_of(1122),
    {
        Filter::single(2)
    }

    /// The selection of RFC 1918 alone.
    pub fn rfc1918() -> (r: Filter)
        ensures
            r@ == set![3nat],
            r@ == selection_of(1918),
    {
        Filter::single(3)
    }

    /// The selection of RFC 2544 alone.
    pub fn rfc2544() -> (r: Filter)
        ensures
            r@ == set![4nat],
            r@ == selection_of(2544),
    {
        Filter::single(4)
    }

    /// The selection of RFC 2765 alone.
    pub fn rfc2765() -> (r: Filter)
        ensures
            r@ == set![5nat],
            r@ == selection_of(2765),
    {
        Filter::single(5)
    }

    /// The selection of RFC 2928 alone.
    pub fn rfc2928() -> (r: Filter)
        ensures
            r@ == set![6nat],
            r@ == selection_of(2928),
    {
        Filter::single(6)
    }

    /// The selection of RFC 3056 alone.
    pub fn rfc3056() -> (r: Filter)
        ensures
            r@ == set![7nat],
            r@ == selection_of(3056),
    {
        Filter::single(7)
    }

    /// The selection of RFC 3068 alone.
    pub fn rfc3068() -> (r: Filter)
        ensures
            r@ == set![8nat],
            r@ == selection_of(3068),
    {
        Filter::single(8)
    }

    /// The selection of RFC 3171 alone.
    pub fn rfc3171() -> (r: Filter)
        ensures
            r@ == set![9nat],
            r@ == selection_of(3171),
    {
        Filter::single(9)
    }

    /// The selection of RFC 3330 alone.
    pub fn rfc3330() -> (r: Filter)
        ensures
            r@ == set![10nat],
            r@ == selection_of(3330),
    {
        Filter::single(10)
    }

    /// The selection of RFC 3849 alone.
    pub fn rfc3849() -> (r: Filter)
        ensures
            r@ == set![11nat],
            r@ == selection_of(3849),
    {
        Filter::single(11)
    }

    /// The selection of RFC 3927 alone.
    pub fn rfc3927() -> (r: Filter)
        ensures
            r@ == set![12nat],
            r@ == selection_of(3927),
    {
        Filter::single(12)
    }

    /// The selection of RFC 4038 alone.
    pub fn rfc4038() -> (r: Filter)
        ensures
            r@ == set![13nat],
            r@ == selection_of(4038),
    {
        Filter::single(13)
    }

    /// The selection of RFC 4193 alone.
    pub fn rfc4193() -> (r: Filter)
        ensures
            r@ == set![14nat],
            r@ == selection_of(4193),
    {
        Filter::single(14)
    }

    /// The selection of RFC 4291 alone.
    pub fn rfc4291() -> (r: Filter)
        ensures
            r@ == set![15nat],
            r@ == selection_of(4291),
    {
        Filter::single(15)
    }

    /// The selection of RFC 4380 alone.
    pub fn rfc4380() -> (r: Filter)
        ensures
            r@ == set![16nat],
            r@ == selection_of(4380),
    {
        Filter::single(16)
    }

    /// The selection of RFC 4773 alone.
    pub fn rfc4773() -> (r: Filter)
        ensures
            r@ == set![17nat],
            r@ == selection_of(4773),
    {
        Filter::single(17)
    }

    /// The selection of RFC 4843 alone.
    pub fn rfc4843() -> (r: Filter)
        ensures
            r@ == set![18nat],
            r@ == selection_of(4843),
    {
        Filter::single(18)
    }

    /// The selection of RFC 5180 alone.
    pub fn rfc5180() -> (r: Filter)
        ensures
            r@ == set![19nat],
            r@ == selection_of(5180),
    {
        Filter::single(19)
    }

    /// The selection of RFC 5735 alone.
    pub fn rfc5735() -> (r: Filter)
        ensures
            r@ == set![20nat],
            r@ == selection_of(5735),
    {
        Filter::single(20)
    }

    /// The selection of RFC 5737 alone.
    pub fn rfc5737() -> (r: Filter)
        ensures
            r@ == set![21nat],
            r@ == selection_of(5737),
    {
        Filter::single(21)
    }

    /// The selection of RFC 6052 alone.
    pub fn rfc6052() -> (r: Filter)
        ensures
            r@ == set![22nat],
            r@ == selection_of(6052),
    {
        Filter::single(22)
    }

    /// The selection of RFC 6333 alone.
    pub fn rfc6333() -> (r: Filter)
        ensures
            r@ == set![23nat],
            r@ == selection_of(6333),
    {
        Filter::single(23)
    }

    /// The selection of RFC 6598 alone.
    pub fn rfc6598() -> (r: Filter)
        ensures
            r@ == set![24nat],
            r@ == selection_of(6598),
    {
        Filter::single(24)
    }

    /// The selection of RFC 6666 alone.
    pub fn rfc6666() -> (r: Filter)
        ensures
            r@ == set![25nat],
            r@ == selection_of(6666),
    {
        Filter::single(25)
    }

    /// The selection of RFC 6890 alone.
    pub fn rfc6890() -> (r: Filter)
        ensures
            r@ == set![26nat],
            r@ == selection_of(6890),
    {
        Filter::single(26)
    }

    /// The selection of RFC 7335 alone.
    pub fn rfc7335() -> (r: Filter)
        ensures
            r@ == set![27nat],
            r@ == selection_of(7335),
    {
        Filter::single(27)
    }

    /// The selection of the addresses that must not be forwarded alone.
    pub fn forwarding_blacklist() -> (r: Filter)
        ensures
            r@ == set![28nat],
            r@ == selection_of(FORWARDING_BLACKLIST_ID),
    {
        Filter::single(28)
    }
}

impl core::ops::BitOr for Filter {
    type Output = Filter;

    /// The selection of what either selection holds.
    fn bitor(self, rhs: Filter) -> (r: Filter) {
        self.union(rhs)
    }
}

impl vstd::std_specs::ops::BitOrSpecImpl for Filter {
    open spec fn obeys_bitor_spec() -> bool {
        true
    }

    open spec fn bitor_req(self, rhs: Filter) -> bool {
        true
    }

    open spec fn bitor_spec(self, rhs: Filter) -> Filter {
        self.spec_union(rhs)
    }
}

} // verus!
