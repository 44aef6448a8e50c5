use geolite::parse::{check_decimal, parse_i64, parse_u64};

#[test]
fn parse_u64_accepts_plain_decimals() {
    assert_eq!(parse_u64("0"), Some(0));
    assert_eq!(parse_u64("604800"), Some(604800));
    assert_eq!(parse_u64("18446744073709551615"), Some(u64::MAX));
}

#[test]
fn parse_u64_rejects_bad_shapes() {
    assert_eq!(parse_u64(""), None);
    assert_eq!(parse_u64("+5"), None);
    assert_eq!(parse_u64("-5"), None);
    assert_eq!(parse_u64("12a"), None);
    assert_eq!(parse_u64(" 12"), None);
    assert_eq!(parse_u64("18446744073709551616"), None);
    assert_eq!(parse_u64("99999999999999999999999"), None);
}

#[test]
fn parse_i64_handles_signs_and_limits() {
    assert_eq!(parse_i64("0"), Some(0));
    assert_eq!(parse_i64("-0"), Some(0));
    assert_eq!(parse_i64("2643743"), Some(2643743));
    assert_eq!(parse_i64("-42"), Some(-42));
    assert_eq!(parse_i64("+42"), Some(42));
    assert_eq!(parse_i64("+9223372036854775807"), Some(i64::MAX));
    assert_eq!(parse_i64("9223372036854775807"), Some(i64::MAX));
    assert_eq!(parse_i64("-9223372036854775808"), Some(i64::MIN));
    assert_eq!(parse_i64("9223372036854775808"), None);
    assert_eq!(parse_i64("-9223372036854775809"), None);
    assert_eq!(parse_i64("-"), None);
    assert_eq!(parse_i64("+"), None);
    assert_eq!(parse_i64("++1"), None);
    assert_eq!(parse_i64("+9223372036854775808"), None);
    assert_eq!(parse_i64(""), None);
    assert_eq!(parse_i64("1.5"), None);
}

#[test]
fn check_decimal_accepts_coordinates() {
    assert!(check_decimal("51"));
    assert!(check_decimal("51.75"));
    assert!(check_decimal("-3.5"));
    assert!(check_decimal("-0.0005"));
    assert!(check_decimal("34.0522"));
    assert!(check_decimal("1."));
    assert!(check_decimal(".5"));
    assert!(check_decimal("-.5"));
}

#[test]
fn check_decimal_rejects_bad_shapes() {
    assert!(!check_decimal(""));
    assert!(!check_decimal("-"));
    assert!(!check_decimal("."));
    assert!(!check_decimal("-."));
    assert!(!check_decimal("1.2.3"));
    assert!(!check_decimal("1e5"));
    assert!(!check_decimal("abc"));
    assert!(!check_decimal("--1"));
}
