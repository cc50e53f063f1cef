use gluetun_connector::text::{equals_ignoring_ascii_case, parse_u64, push_decimal, trim_string};

#[test]
fn trim_removes_unicode_white_space_at_both_ends() {
    assert_eq!(trim_string("  a b \t\n"), "a b");
    assert_eq!(trim_string("\u{3000}x\u{a0}"), "x");
    assert_eq!(trim_string(" \r\n "), "");
    assert_eq!(trim_string(""), "");
}

#[test]
fn parse_u64_accepts_plus_and_digits_only() {
    assert_eq!(parse_u64("0"), Some(0));
    assert_eq!(parse_u64("+42"), Some(42));
    assert_eq!(parse_u64("007"), Some(7));
    assert_eq!(parse_u64("18446744073709551615"), Some(u64::MAX));
    assert_eq!(parse_u64("18446744073709551616"), None);
    assert_eq!(parse_u64("+"), None);
    assert_eq!(parse_u64(""), None);
    assert_eq!(parse_u64("-1"), None);
    assert_eq!(parse_u64(" 5"), None);
    assert_eq!(parse_u64("++5"), None);
    assert_eq!(parse_u64("5a"), None);
}

#[test]
fn parse_u64_agrees_with_std() {
    for s in ["1", "+1", "99999999999999999999", "12x", "", "+", "0000", "-0"] {
        assert_eq!(parse_u64(s), s.parse::<u64>().ok(), "{s}");
    }
}

#[test]
fn push_decimal_writes_the_number() {
    let mut s = String::from("n=");
    push_decimal(&mut s, 0);
    assert_eq!(s, "n=0");
    let mut t = String::new();
    push_decimal(&mut t, u64::MAX);
    assert_eq!(t, u64::MAX.to_string());
    let mut u = String::new();
    push_decimal(&mut u, 1090);
    assert_eq!(u, "1090");
}

#[test]
fn ascii_case_is_ignored_only_for_ascii() {
    assert!(equals_ignoring_ascii_case("AuTo", "auto"));
    assert!(!equals_ignoring_ascii_case("autos", "auto"));
    assert!(!equals_ignoring_ascii_case("ÄUTO", "äuto"));
    assert!(equals_ignoring_ascii_case("", ""));
}
