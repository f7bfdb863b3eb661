use auth_core::digits::{parse_u64, u64_to_dec};

#[test]
fn format_zero() {
    assert_eq!(u64_to_dec(0), "0");
}

#[test]
fn format_single_digit() {
    assert_eq!(u64_to_dec(7), "7");
}

#[test]
fn format_multi_digit() {
    assert_eq!(u64_to_dec(12345), "12345");
    assert_eq!(u64_to_dec(1000), "1000");
}

#[test]
fn format_max() {
    assert_eq!(u64_to_dec(u64::MAX), "18446744073709551615");
}

#[test]
fn parse_simple() {
    assert_eq!(parse_u64("0"), Some(0));
    assert_eq!(parse_u64("42"), Some(42));
    assert_eq!(parse_u64("12345"), Some(12345));
}

#[test]
fn parse_leading_zeros() {
    assert_eq!(parse_u64("007"), Some(7));
    assert_eq!(parse_u64("000"), Some(0));
}

#[test]
fn parse_leading_plus() {
    assert_eq!(parse_u64("+5"), Some(5));
    assert_eq!(parse_u64("+007"), Some(7));
}

#[test]
fn parse_rejects_empty_and_bare_plus() {
    assert_eq!(parse_u64(""), None);
    assert_eq!(parse_u64("+"), None);
}

#[test]
fn parse_rejects_non_digits() {
    assert_eq!(parse_u64("abc"), None);
    assert_eq!(parse_u64("12x"), None);
    assert_eq!(parse_u64("-1"), None);
    assert_eq!(parse_u64("1 2"), None);
}

#[test]
fn parse_bounds() {
    assert_eq!(parse_u64("18446744073709551615"), Some(u64::MAX));
    assert_eq!(parse_u64("18446744073709551616"), None);
    assert_eq!(parse_u64("99999999999999999999999"), None);
}

#[test]
fn parse_long_zero_prefix_still_fits() {
    assert_eq!(parse_u64("0000000000000000000000001"), Some(1));
}

#[test]
fn round_trip() {
    for n in [0u64, 1, 9, 10, 99, 100, 3600, 1234567890, u64::MAX] {
        assert_eq!(parse_u64(&u64_to_dec(n)), Some(n));
    }
}

#[test]
fn parse_rejects_non_ascii_digits() {
    assert_eq!(parse_u64("١٢٣"), None);
    assert_eq!(parse_u64("12\u{0664}"), None);
}
