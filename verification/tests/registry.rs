use iprfc::catalogue;
use iprfc::registry::{FORWARDING_BLACKLIST_INDEX, REGISTRY_LEN};
use iprfc::{RFCs, FORWARDING_BLACKLIST_ID};

#[test]
fn test_indexable_by_id() {
    let rfc = RFCs::get_unchecked(6890);
    assert_eq!(6890, rfc.id());

    let rfc = RFCs::get_unchecked(FORWARDING_BLACKLIST_ID);
    assert_eq!(FORWARDING_BLACKLIST_ID, rfc.id());
}

// The three lookups below are made outside the precondition of the function
// called: for a caller that nothing has verified, the failed lookup stops the
// program.
#[test]
#[should_panic]
fn test_indexable_by_id_panic() {
    let _ = RFCs::get_unchecked(9999);
}

#[test]
fn test_get() {
    let rfc = RFCs::get(FORWARDING_BLACKLIST_ID).unwrap();
    assert_eq!(FORWARDING_BLACKLIST_ID, rfc.id());

    let rfc = RFCs::get(7335).unwrap();
    assert_eq!(7335, rfc.id());
}

#[test]
fn test_get_unchecked() {
    let rfc = RFCs::get_unchecked(FORWARDING_BLACKLIST_ID);
    assert_eq!(FORWARDING_BLACKLIST_ID, rfc.id());

    let rfc = RFCs::get_unchecked(7335);
    assert_eq!(7335, rfc.id());
}

#[test]
#[should_panic]
fn test_get_unchecked_panic() {
    let _ = RFCs::get_unchecked(9999);
}

#[test]
fn test_indexable_by_str() {
    let rfc = RFCs::by_alias("6890");
    assert_eq!(6890, rfc.id());

    let rfc = RFCs::by_alias("RFC6890");
    assert_eq!(6890, rfc.id());

    let rfc = RFCs::by_alias("rfc 6890");
    assert_eq!(6890, rfc.id());

    let rfc = RFCs::by_alias("blacklist");
    assert_eq!(rfc.id(), FORWARDING_BLACKLIST_ID);
}

#[test]
#[should_panic]
fn test_indexable_by_str_panic() {
    let _ = RFCs::by_alias("9999");
}

#[test]
fn len_is_twenty_nine() {
    assert_eq!(29, RFCs::len());
    assert_eq!(REGISTRY_LEN, RFCs::len());
    assert_eq!(RFCs::iter().len(), RFCs::len());
}

#[test]
fn contains_known_and_unknown_ids() {
    assert!(RFCs::contains(6890));
    assert!(RFCs::contains(919));
    assert!(RFCs::contains(FORWARDING_BLACKLIST_ID));
    assert!(!RFCs::contains(9999));
    assert!(!RFCs::contains(0));
    assert!(!RFCs::contains(99999));
}

#[test]
fn get_of_unknown_id_is_none() {
    assert!(RFCs::get(9999).is_none());
    assert!(RFCs::get(99999).is_none());
    assert!(RFCs::get(6891).is_none());
    assert_eq!(RFCs::get(6890).unwrap().id(), 6890);
}

#[test]
fn sentinel_id_is_u32_max() {
    assert_eq!(FORWARDING_BLACKLIST_ID, 4294967295);
    assert_eq!(FORWARDING_BLACKLIST_ID, u32::MAX);
}

#[test]
fn registry_order_is_ascending_with_blacklist_last() {
    let expected: [u32; 29] = [
        919, 1112, 1122, 1918, 2544, 2765, 2928, 3056, 3068, 3171, 3330, 3849, 3927, 4038, 4193,
        4291, 4380, 4773, 4843, 5180, 5735, 5737, 6052, 6333, 6598, 6666, 6890, 7335, 4294967295,
    ];
    let all = RFCs::iter();
    assert_eq!(all.len(), 29);
    for (i, rfc) in all.iter().enumerate() {
        assert_eq!(rfc.id(), expected[i]);
        assert_eq!(RFCs::id_at(i), expected[i]);
        assert_eq!(RFCs::position(expected[i]), Some(i));
        assert_eq!(RFCs::at(i), *rfc);
        assert_eq!(RFCs::get(expected[i]).unwrap(), *rfc);
    }
    for i in 1..28 {
        assert!(expected[i - 1] < expected[i]);
    }
    assert_eq!(RFCs::position(FORWARDING_BLACKLIST_ID), Some(FORWARDING_BLACKLIST_INDEX));
    assert_eq!(RFCs::position(9999), None);
}

#[test]
fn iter_is_restartable() {
    let first: Vec<u32> = RFCs::iter().iter().map(|r| r.id()).collect();
    let second: Vec<u32> = RFCs::iter().iter().map(|r| r.id()).collect();
    assert_eq!(first, second);
}

#[test]
fn blacklist_aliases_resolve_to_the_blacklist() {
    let by_id = RFCs::get(4294967295).unwrap();
    assert_eq!(by_id, catalogue::forwarding_blacklist());
    for alias in ["blacklist", "BLACKLIST", "blocked", "BLOCKED", "4294967295"] {
        assert_eq!(RFCs::by_alias(alias), by_id, "{alias}");
        assert_eq!(RFCs::get_by_alias(alias), Some(by_id.clone()), "{alias}");
        assert_eq!(RFCs::alias_position(alias), Some(28), "{alias}");
    }
}

#[test]
fn alias_token_is_case_insensitive() {
    for alias in ["RFC1918", "rfc1918", "Rfc1918", "rFC 1918", "RFC\t1918 ", "1918", " 1918 "] {
        assert_eq!(RFCs::get_by_alias(alias).unwrap().id(), 1918, "{alias}");
    }
    assert_eq!(RFCs::get_by_alias("rfc blacklist").unwrap().id(), FORWARDING_BLACKLIST_ID);
}

#[test]
fn unknown_aliases_are_none() {
    for alias in [
        "9999", "", "rfc", "RFC", "RFC 9999", "01918", "+1918", "1918x", "19 18", "Blacklist",
        "black list", "rfcrfc1918", " rfc1918", "FORWARDING_BLACKLIST", "42949672950",
    ] {
        assert_eq!(RFCs::get_by_alias(alias), None, "{alias:?}");
        assert_eq!(RFCs::alias_position(alias), None, "{alias:?}");
    }
}

#[test]
fn every_id_is_an_alias_of_its_record() {
    for (i, rfc) in RFCs::iter().iter().enumerate() {
        let plain = format!("{}", rfc.id());
        let upper = format!("RFC{}", rfc.id());
        let spaced = format!("rfc  {}  ", rfc.id());
        assert_eq!(RFCs::alias_position(&plain), Some(i));
        assert_eq!(RFCs::alias_position(&upper), Some(i));
        assert_eq!(RFCs::alias_position(&spaced), Some(i));
        assert_eq!(RFCs::by_alias(&upper).id(), rfc.id());
    }
}
