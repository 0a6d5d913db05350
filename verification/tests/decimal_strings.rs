use replay_driver::decimal::parse_i32;

#[test]
fn parses_zero() {
    assert_eq!(parse_i32("0"), Some(0));
}

#[test]
fn parses_negative_zero() {
    assert_eq!(parse_i32("-0"), Some(0));
}

#[test]
fn parses_leading_zeros() {
    assert_eq!(parse_i32("007"), Some(7));
}

#[test]
fn rejects_empty_and_bare_signs() {
    assert_eq!(parse_i32(""), None);
    assert_eq!(parse_i32("-"), None);
    assert_eq!(parse_i32("+"), None);
}

#[test]
fn rejects_trailing_garbage() {
    assert_eq!(parse_i32("12x"), None);
    assert_eq!(parse_i32("1 2"), None);
}

#[test]
fn rejects_surrounding_whitespace() {
    assert_eq!(parse_i32(" 12"), None);
    assert_eq!(parse_i32("12 "), None);
}

#[test]
fn parses_extremes_and_rejects_just_past_them() {
    assert_eq!(parse_i32("2147483647"), Some(i32::MAX));
    assert_eq!(parse_i32("-2147483648"), Some(i32::MIN));
    assert_eq!(parse_i32("2147483648"), None);
    assert_eq!(parse_i32("-2147483649"), None);
    assert_eq!(parse_i32("99999999999999999999"), None);
}

#[test]
fn rejects_inner_sign() {
    assert_eq!(parse_i32("1-2"), None);
    assert_eq!(parse_i32("--1"), None);
}
