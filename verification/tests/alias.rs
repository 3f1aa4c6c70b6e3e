use iprfc::alias::{chars_of, key_of, space, spells, to_decimal};

fn text(chars: &[char]) -> String {
    chars.iter().collect()
}

fn key(s: &str) -> String {
    let chars = chars_of(s);
    let (lo, hi) = key_of(&chars);
    text(&chars[lo..hi])
}

#[test]
fn decimal_spelling() {
    assert_eq!(text(&to_decimal(0)), "0");
    assert_eq!(text(&to_decimal(7)), "7");
    assert_eq!(text(&to_decimal(10)), "10");
    assert_eq!(text(&to_decimal(919)), "919");
    assert_eq!(text(&to_decimal(6890)), "6890");
    assert_eq!(text(&to_decimal(1234567890)), "1234567890");
    assert_eq!(text(&to_decimal(u32::MAX)), "4294967295");
}

#[test]
fn decimal_agrees_with_std_formatting() {
    for n in (0u32..5000).chain([65535, 65536, 99999, 100000, 4294967294]) {
        assert_eq!(text(&to_decimal(n)), format!("{n}"));
    }
}

#[test]
fn space_agrees_with_std() {
    for code in 0u32..0x3100 {
        if let Some(c) = char::from_u32(code) {
            assert_eq!(space(c), c.is_whitespace(), "{code:#x}");
        }
    }
    assert!(space(' '));
    assert!(space('\t'));
    assert!(space('\n'));
    assert!(space('\u{3000}'));
    assert!(!space('a'));
    assert!(!space('0'));
    assert!(!space('\u{200B}'));
}

#[test]
fn chars_of_keeps_every_character() {
    assert_eq!(chars_of(""), Vec::<char>::new());
    assert_eq!(chars_of("rfc 1"), vec!['r', 'f', 'c', ' ', '1']);
    assert_eq!(chars_of("é\u{3000}x"), vec!['é', '\u{3000}', 'x']);
}

#[test]
fn key_strips_token_and_spaces() {
    assert_eq!(key("6890"), "6890");
    assert_eq!(key("RFC6890"), "6890");
    assert_eq!(key("rfc 6890"), "6890");
    assert_eq!(key("rFc\t 6890 \n"), "6890");
    assert_eq!(key("  6890  "), "6890");
    assert_eq!(key("blacklist"), "blacklist");
    assert_eq!(key("rfc"), "");
    assert_eq!(key("RFC   "), "");
    assert_eq!(key(""), "");
    assert_eq!(key("   "), "");
    assert_eq!(key("rf 12"), "rf 12");
    assert_eq!(key("rfcrfc12"), "rfc12");
    assert_eq!(key(" rfc12"), "rfc12");
    assert_eq!(key("12 34"), "12 34");
}

#[test]
fn key_agrees_with_std_trim() {
    for s in ["RFC 12 ", "rfc\u{3000}12\u{85}", "RFC\u{a0}x y\u{2028}"] {
        assert_eq!(key(s), s[3..].trim());
    }
    for s in [" a b ", "\t\n12\r", "x", "\u{1680}x\u{205f}"] {
        assert_eq!(key(s), s.trim());
    }
}

#[test]
fn spells_compares_exactly() {
    let chars = chars_of("rfc 6890 ");
    let word = chars_of("6890");
    assert!(spells(&chars, 4, 8, &word));
    assert!(!spells(&chars, 4, 9, &word));
    assert!(!spells(&chars, 3, 8, &word));
    assert!(!spells(&chars, 4, 7, &word));
    assert!(!spells(&chars, 4, 8, &chars_of("6891")));
    assert!(spells(&chars, 2, 2, &chars_of("")));
}
