//! The registry: the catalogue's records in their fixed order, found by
//! index, by identifier and by alias.

use crate::alias::{
    alias_key,
    chars_of,
    decimal,
    has_token,
    is_space,
    key_of,
    lemma_decimal_injective,
    lemma_decimal_shape,
    spells,
    to_decimal,
};
use crate::catalogue;
use crate::catalogue::FORWARDING_BLACKLIST_ID;
use crate::model::Record;
use crate::rfc::RFC;
use vstd::pervasive::unreached;
use vstd::prelude::*;

verus! {

/// The number of records in the registry.
pub const REGISTRY_LEN: usize = 29;

/// The index of the record of addresses that must not be forwarded: the last.
pub const FORWARDING_BLACKLIST_INDEX: usize = 28;

/// The identifiers of the records, in registry order.
pub open spec fn ids() -> Seq<u32> {
    seq![
        919u32,
        1112u32,
        1122u32,
        1918u32,
        2544u32,
        2765u32,
        2928u32,
        3056u32,
        3068u32,
        3171u32,
        3330u32,
        3849u32,
        3927u32,
        4038u32,
        4193u32,
        4291u32,
        4380u32,
        4773u32,
        4843u32,
        5180u32,
        5735u32,
        5737u32,
        6052u32,
        6333u32,
        6598u32,
        6666u32,
        6890u32,
        7335u32,
        FORWARDING_BLACKLIST_ID,
    ]
}

/// The records, in registry order.
pub open spec fn registry() -> Seq<Record> {
    seq![
        catalogue::rfc919_record(),
        catalogue::rfc1112_record(),
        catalogue::rfc1122_record(),
        catalogue::rfc1918_record(),
        catalogue::rfc2544_record(),
        catalogue::rfc2765_record(),
        catalogue::rfc2928_record(),
        catalogue::rfc3056_record(),
        catalogue::rfc3068_record(),
        catalogue::rfc3171_record(),
        catalogue::rfc3330_record(),
        catalogue::rfc3849_record(),
        catalogue::rfc3927_record(),
        catalogue::rfc4038_record(),
        catalogue::rfc4193_record(),
        catalogue::rfc4291_record(),
        catalogue::rfc4380_record(),
        catalogue::rfc4773_record(),
        catalogue::rfc4843_record(),
        catalogue::rfc5180_record(),
        catalogue::rfc5735_record(),
        catalogue::rfc5737_record(),
        catalogue::rfc6052_record(),
        catalogue::rfc6333_record(),
        catalogue::rfc6598_record(),
        catalogue::rfc6666_record(),
        catalogue::rfc6890_record(),
        catalogue::rfc7335_record(),
        catalogue::forwarding_blacklist_record(),
    ]
}

/// The registry holds one record for each identifier, in the same order.
pub proof fn lemma_registry_ids()
    ensures
        ids().len() == REGISTRY_LEN,
        registry().len() == REGISTRY_LEN,
        forall|i: int| 0 <= i < REGISTRY_LEN ==> (#[trigger] registry()[i]).id == ids()[i],
{
}

/// The identifiers ascend strictly, so no two records share one, and the
/// greatest identifier, that of the blacklist, comes last.
pub proof fn lemma_ids_ascending()
    ensures
        forall|i: int, j: int| 0 <= i < j < REGISTRY_LEN ==> ids()[i] < ids()[j],
        ids()[FORWARDING_BLACKLIST_INDEX as int] == FORWARDING_BLACKLIST_ID,
{
}

/// An identifier stands at one index at most.
pub proof fn lemma_ids_unique(i: int, j: int)
    requires
        0 <= i < REGISTRY_LEN,
        0 <= j < REGISTRY_LEN,
        ids()[i] == ids()[j],
    ensures
        i == j,
{
    lemma_ids_ascending();
}

/// Every record of the registry is well formed: each of its ranges is in
/// canonical form, and none occurs twice in it.
pub proof fn lemma_registry_wf()
    ensures
        forall|i: int| 0 <= i < registry().len() ==> (#[trigger] registry()[i]).wf(),
{
    catalogue::lemma_rfc919_wf();
    catalogue::lemma_rfc1112_wf();
    catalogue::lemma_rfc1122_wf();
    catalogue::lemma_rfc1918_wf();
    catalogue::lemma_rfc2544_wf();
    catalogue::lemma_rfc2765_wf();
    catalogue::lemma_rfc2928_wf();
    catalogue::lemma_rfc3056_wf();
    catalogue::lemma_rfc3068_wf();
    catalogue::lemma_rfc3171_wf();
    catalogue::lemma_rfc3330_wf();
    catalogue::lemma_rfc3849_wf();
    catalogue::lemma_rfc3927_wf();
    catalogue::lemma_rfc4038_wf();
    catalogue::lemma_rfc4193_wf();
    catalogue::lemma_rfc4291_wf();
    catalogue::lemma_rfc4380_wf();
    catalogue::lemma_rfc4773_wf();
    catalogue::lemma_rfc4843_wf();
    catalogue::lemma_rfc5180_wf();
    catalogue::lemma_rfc5735_wf();
    catalogue::lemma_rfc5737_wf();
    catalogue::lemma_rfc6052_wf();
    catalogue::lemma_rfc6333_wf();
    catalogue::lemma_rfc6598_wf();
    catalogue::lemma_rfc6666_wf();
    catalogue::lemma_rfc6890_wf();
    catalogue::lemma_rfc7335_wf();
    catalogue::lemma_forwarding_blacklist_wf();
}

/// Whether `k` is one of the words for the blacklist.
pub open spec fn is_blacklist_word(k: Seq<char>) -> bool {
    k == "blacklist"@ || k == "BLACKLIST"@ || k == "blocked"@ || k == "BLOCKED"@
}

/// Whether the key `k` names the record at index `i`: it spells the record's
/// identifier in decimal, or the record is the blacklist and `k` is one of
/// its words.
pub open spec fn names(k: Seq<char>, i: int) -> bool {
    &&& 0 <= i < REGISTRY_LEN
    &&& (k == decimal(ids()[i] as nat) || (i == FORWARDING_BLACKLIST_INDEX && is_blacklist_word(
        k,
    )))
}

/// Whether the key names a record.
pub open spec fn known_alias(k: Seq<char>) -> bool {
    exists|i: int| names(k, i)
}

/// The index of the record that the key names.
pub open spec fn alias_index(k: Seq<char>) -> int {
    choose|i: int| names(k, i)
}

/// A key names one record at most.
pub proof fn lemma_alias_unique(k: Seq<char>, i: int, j: int)
    requires
        names(k, i),
        names(k, j),
    ensures
        i == j,
{
    reveal_strlit("blacklist");
    reveal_strlit("BLACKLIST");
    reveal_strlit("blocked");
    reveal_strlit("BLOCKED");
    lemma_decimal_shape(ids()[i] as nat);
    lemma_decimal_shape(ids()[j] as nat);
    if k == decimal(ids()[i] as nat) && k == decimal(ids()[j] as nat) {
        lemma_decimal_injective(ids()[i] as nat, ids()[j] as nat);
        lemma_ids_unique(i, j);
    }
}

/// The four words for the blacklist, each as it stands, name the record
/// that the blacklist's identifier names.
pub proof fn lemma_blacklist_words(k: Seq<char>)
    requires
        is_blacklist_word(k),
    ensures
        alias_key(k) == k,
        known_alias(k),
        alias_index(k) == FORWARDING_BLACKLIST_INDEX,
        ids().index_of(FORWARDING_BLACKLIST_ID) == FORWARDING_BLACKLIST_INDEX,
{
    reveal_strlit("blacklist");
    reveal_strlit("BLACKLIST");
    reveal_strlit("blocked");
    reveal_strlit("BLOCKED");
    assert(!has_token(k));
    assert(!is_space(k[0]));
    assert(!is_space(k.last()));
    assert(names(k, FORWARDING_BLACKLIST_INDEX as int));
    lemma_alias_unique(k, FORWARDING_BLACKLIST_INDEX as int, alias_index(k));
    assert(ids()[FORWARDING_BLACKLIST_INDEX as int] == FORWARDING_BLACKLIST_ID);
    lemma_ids_unique(FORWARDING_BLACKLIST_INDEX as int, ids().index_of(FORWARDING_BLACKLIST_ID));
}

/// All known records.
#[derive(Debug, Default, Copy, Clone, Eq, PartialEq, Hash)]
pub struct RFCs;

impl RFCs {
    /// The number of known records.
    pub fn len() -> (r: usize)
        ensures
            r == registry().len(),
            r == 29,
    {
        REGISTRY_LEN
    }

    /// The index at which the record with the given identifier stands, if
    /// there is one.
    pub fn position(id: u32) -> (r: Option<usize>)
        ensures
            match r {
                Some(i) => i < REGISTRY_LEN && ids()[i as int] == id,
                None => !ids().contains(id),
            },
    {
        match id {
            919 => Some(0),
            1112 => Some(1),
            1122 => Some(2),
            1918 => Some(3),
            2544 => Some(4),
            2765 => Some(5),
            2928 => Some(6),
            3056 => Some(7),
            3068 => Some(8),
            3171 => Some(9),
            3330 => Some(10),
            3849 => Some(11),
            3927 => Some(12),
            4038 => Some(13),
            4193 => Some(14),
            4291 => Some(15),
            4380 => Some(16),
            4773 => Some(17),
            4843 => Some(18),
            5180 => Some(19),
            5735 => Some(20),
            5737 => Some(21),
            6052 => Some(22),
            6333 => Some(23),
            6598 => Some(24),
            6666 => Some(25),
            6890 => Some(26),
            7335 => Some(27),
            FORWARDING_BLACKLIST_ID => Some(28),
            _ => {
                assert forall|i: int| 0 <= i < ids().len() implies ids()[i] != id by {}
                None
            },
        }
    }

    /// The record at the given index. Its ranges are in canonical form and
    /// differ from one another.
    pub fn at(index: usize) -> (r: RFC)
        requires
            index < REGISTRY_LEN,
        ensures
            r@ == registry()[index as int],
            r@.wf(),
    {
        match index {
            0 => catalogue::rfc919(),
            1 => catalogue::rfc1112(),
            2 => catalogue::rfc1122(),
            3 => catalogue::rfc1918(),
            4 => catalogue::rfc2544(),
            5 => catalogue::rfc2765(),
            6 => catalogue::rfc2928(),
            7 => catalogue::rfc3056(),
            8 => catalogue::rfc3068(),
            9 => catalogue::rfc3171(),
            10 => catalogue::rfc3330(),
            11 => catalogue::rfc3849(),
            12 => catalogue::rfc3927(),
            13 => catalogue::rfc4038(),
            14 => catalogue::rfc4193(),
            15 => catalogue::rfc4291(),
            16 => catalogue::rfc4380(),
            17 => catalogue::rfc4773(),
            18 => catalogue::rfc4843(),
            19 => catalogue::rfc5180(),
            20 => catalogue::rfc5735(),
            21 => catalogue::rfc5737(),
            22 => catalogue::rfc6052(),
            23 => catalogue::rfc6333(),
            24 => catalogue::rfc6598(),
            25 => catalogue::rfc6666(),
            26 => catalogue::rfc6890(),
            27 => catalogue::rfc7335(),
            28 => catalogue::forwarding_blacklist(),
            _ => unreached(),
        }
    }


    /// Whether `id` is the identifier of a known record.
    pub fn contains(id: u32) -> (r: bool)
        ensures
            r == ids().contains(id),
    {
        RFCs::position(id).is_some()
    }

    /// The record with the given identifier, if there is one.
    pub fn get(id: u32) -> (r: Option<RFC>)
        ensures
            r is Some <==> ids().contains(id),
            r is Some ==> r.unwrap()@.id == id && r.unwrap()@ == registry()[ids().index_of(id)],
    {
        match RFCs::position(id) {
            Some(i) => {
                proof {
                    lemma_registry_ids();
                    lemma_ids_unique(i as int, ids().index_of(id));
                }
                Some(RFCs::at(i))
            },
            None => None,
        }
    }

    /// The record with the given identifier, which must be a known one.
    pub fn get_unchecked(id: u32) -> (r: RFC)
        requires
            ids().contains(id),
        ensures
            r@.id == id,
            r@ == registry()[ids().index_of(id)],
    {
        let i = RFCs::position(id).unwrap();
        proof {
            lemma_registry_ids();
            lemma_ids_unique(i as int, ids().index_of(id));
        }
        RFCs::at(i)
    }

    /// The identifier of the record at the given index.
    pub fn id_at(index: usize) -> (r: u32)
        requires
            index < REGISTRY_LEN,
        ensures
            r == ids()[index as int],
    {
        match index {
            0 => 919,
            1 => 1112,
            2 => 1122,
            3 => 1918,
            4 => 2544,
            5 => 2765,
            6 => 2928,
            7 => 3056,
            8 => 3068,
            9 => 3171,
            10 => 3330,
            11 => 3849,
            12 => 3927,
            13 => 4038,
            14 => 4193,
            15 => 4291,
            16 => 4380,
            17 => 4773,
            18 => 4843,
            19 => 5180,
            20 => 5735,
            21 => 5737,
            22 => 6052,
            23 => 6333,
            24 => 6598,
            25 => 6666,
            26 => 6890,
            27 => 7335,
            28 => FORWARDING_BLACKLIST_ID,
            _ => unreached(),
        }
    }

    /// The index of the record that the alias names, if it names one. An
    /// alias names a record by its identifier in decimal, with or without a
    /// leading `rfc` and white space around the number, or the blacklist by
    /// one of its words.
    pub fn alias_position(alias: &str) -> (r: Option<usize>)
        ensures
            r is Some <==> known_alias(alias_key(alias@)),
            r is Some ==> r.unwrap() == alias_index(alias_key(alias@)),
    {
        let chars = chars_of(alias);
        let (lo, hi) = key_of(&chars);
        let ghost key = alias_key(alias@);
        if spells(&chars, lo, hi, &chars_of("blacklist")) || spells(
            &chars,
            lo,
            hi,
            &chars_of("BLACKLIST"),
        ) || spells(&chars, lo, hi, &chars_of("blocked")) || spells(
            &chars,
            lo,
            hi,
            &chars_of("BLOCKED"),
        ) {
            proof {
                assert(names(key, FORWARDING_BLACKLIST_INDEX as int));
                lemma_alias_unique(key, FORWARDING_BLACKLIST_INDEX as int, alias_index(key));
            }
            return Some(FORWARDING_BLACKLIST_INDEX);
        }
        let mut i: usize = 0;
        while i < REGISTRY_LEN
            invariant
                i <= REGISTRY_LEN,
                lo <= hi <= chars.len(),
                key == alias_key(alias@),
                key == chars@.subrange(lo as int, hi as int),
                !is_blacklist_word(key),
                forall|j: int| 0 <= j < i ==> !names(key, j),
            decreases REGISTRY_LEN - i,
        {
            let spelled = to_decimal(RFCs::id_at(i));
            if spells(&chars, lo, hi, &spelled) {
                proof {
                    assert(names(key, i as int));
                    lemma_alias_unique(key, i as int, alias_index(key));
                }
                return Some(i);
            }
            i = i + 1;
        }
        None
    }

    /// The record that the alias names, if it names one.
    pub fn get_by_alias(alias: &str) -> (r: Option<RFC>)
        ensures
            r is Some <==> known_alias(alias_key(alias@)),
            r is Some ==> r.unwrap()@ == registry()[alias_index(alias_key(alias@))],
    {
        match RFCs::alias_position(alias) {
            Some(i) => Some(RFCs::at(i)),
            None => None,
        }
    }

    /// The record that the alias names, which must name one.
    pub fn by_alias(alias: &str) -> (r: RFC)
        requires
            known_alias(alias_key(alias@)),
        ensures
            r@ == registry()[alias_index(alias_key(alias@))],
    {
        let i = RFCs::alias_position(alias).unwrap();
        RFCs::at(i)
    }

    /// All records, in registry order.
    pub fn iter() -> (r: Vec<RFC>)
        ensures
            r@.len() == registry().len(),
            forall|i: int| 0 <= i < r@.len() ==> (#[trigger] r@[i])@ == registry()[i],
    {
        let mut all: Vec<RFC> = Vec::new();
        let mut i: usize = 0;
        while i < REGISTRY_LEN
            invariant
                i <= REGISTRY_LEN,
                all@.len() == i,
                forall|j: int| 0 <= j < i ==> (#[trigger] all@[j])@ == registry()[j],
            decreases REGISTRY_LEN - i,
        {
            all.push(RFCs::at(i));
            i = i + 1;
        }
        proof {
            lemma_registry_ids();
        }
        all
    }
}

} // verus!
