//! Decimal id rendering and parsing, and the blank mask.
use guess_a_word::text::{blank_mask, parse_u32, u32_to_string};

#[test]
fn renders_ids_in_decimal() {
    assert_eq!(u32_to_string(0), "0");
    assert_eq!(u32_to_string(7), "7");
    assert_eq!(u32_to_string(42), "42");
    assert_eq!(u32_to_string(1700), "1700");
    assert_eq!(u32_to_string(u32::MAX), "4294967295");
}

#[test]
fn parses_valid_ids() {
    assert_eq!(parse_u32("0"), Some(0));
    assert_eq!(parse_u32("42"), Some(42));
    assert_eq!(parse_u32("007"), Some(7));
    assert_eq!(parse_u32("+7"), Some(7));
    assert_eq!(parse_u32("4294967295"), Some(u32::MAX));
}

#[test]
fn rejects_invalid_ids() {
    assert_eq!(parse_u32(""), None);
    assert_eq!(parse_u32("+"), None);
    assert_eq!(parse_u32("-1"), None);
    assert_eq!(parse_u32("12a"), None);
    assert_eq!(parse_u32("a12"), None);
    assert_eq!(parse_u32("1 2"), None);
    assert_eq!(parse_u32("4294967296"), None);
    assert_eq!(parse_u32("99999999999999999999"), None);
}

#[test]
fn parse_inverts_rendering() {
    for n in [0u32, 1, 9, 10, 99, 12345, u32::MAX] {
        assert_eq!(parse_u32(&u32_to_string(n)), Some(n));
    }
}

#[test]
fn blank_mask_has_one_underscore_per_character() {
    assert_eq!(blank_mask(0), "");
    assert_eq!(blank_mask(5), "_____");
}
