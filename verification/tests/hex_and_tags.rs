//! The losslessness test and the single-character tag-name grammar.

use relay_migrations::event::single_char_tagname;
use relay_migrations::hexpack::is_lower_hex;
use relay_migrations::tags::{tag_value_of, TagValue};

#[test]
fn lower_hex_accepts_only_lowercase_hex_digits() {
    assert!(is_lower_hex("deadbeef"));
    assert!(is_lower_hex("0123456789abcdef"));
    assert!(is_lower_hex(""));
    assert!(!is_lower_hex("DeadBeef"));
    assert!(!is_lower_hex("abcg"));
    assert!(!is_lower_hex("ab cd"));
    assert!(!is_lower_hex("ABC"));
}

#[test]
fn tag_value_decodes_lower_hex_pairs() {
    assert_eq!(tag_value_of("00ff"), TagValue::Packed(vec![0x00, 0xff]));
    assert_eq!(tag_value_of("abc123"), TagValue::Packed(vec![0xab, 0xc1, 0x23]));
    assert_eq!(tag_value_of(""), TagValue::Packed(Vec::new()));
}

#[test]
fn tag_value_keeps_lossy_candidates_verbatim() {
    // Odd length.
    assert_eq!(tag_value_of("abc"), TagValue::Plain(b"abc".to_vec()));
    // Uppercase digits would not re-encode to the original.
    assert_eq!(tag_value_of("ABCD"), TagValue::Plain(b"ABCD".to_vec()));
    // Not hex at all.
    assert_eq!(tag_value_of("hello!"), TagValue::Plain(b"hello!".to_vec()));
}

#[test]
fn packed_values_round_trip_through_the_hex_crate() {
    for value in ["deadbeef", "00", "abc123", "ff00ff"] {
        match tag_value_of(value) {
            TagValue::Packed(bytes) => assert_eq!(hex::encode(&bytes), value),
            TagValue::Plain(_) => panic!("{value} qualifies for packing"),
        }
    }
}

#[test]
fn tagname_grammar_takes_exactly_one_character() {
    assert_eq!(single_char_tagname("e"), Some('e'));
    assert_eq!(single_char_tagname("p"), Some('p'));
    assert_eq!(single_char_tagname("#"), Some('#'));
    assert_eq!(single_char_tagname(""), None);
    assert_eq!(single_char_tagname("ee"), None);
    assert_eq!(single_char_tagname("tag"), None);
}
