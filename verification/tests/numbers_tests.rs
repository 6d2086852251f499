use derky::numbers::{parse_u32, parse_usize};

#[test]
fn plain_decimal_numbers_parse() {
    assert_eq!(parse_usize(b"0"), Some(0));
    assert_eq!(parse_usize(b"42"), Some(42));
    assert_eq!(parse_usize(b"007"), Some(7));
    assert_eq!(parse_u32(b"4294967295"), Some(u32::MAX));
}

#[test]
fn a_leading_plus_sign_is_accepted() {
    assert_eq!(parse_usize(b"+42"), Some(42));
    assert_eq!(parse_usize(b"+"), None);
}

#[test]
fn malformed_numbers_are_rejected() {
    assert_eq!(parse_usize(b""), None);
    assert_eq!(parse_usize(b"-1"), None);
    assert_eq!(parse_usize(b"1.5"), None);
    assert_eq!(parse_usize(b"12a"), None);
    assert_eq!(parse_usize(b" 1"), None);
}

#[test]
fn overflowing_numbers_are_rejected() {
    assert_eq!(parse_u32(b"4294967296"), None);
    assert_eq!(parse_usize(b"99999999999999999999999999"), None);
}
