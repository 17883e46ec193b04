use tycoon::text::{normalize, parse_u64};

#[test]
fn parse_plain_number() {
    assert_eq!(parse_u64("2"), Some(2));
    assert_eq!(parse_u64("0"), Some(0));
    assert_eq!(parse_u64("144"), Some(144));
}

#[test]
fn parse_trims_surrounding_whitespace() {
    assert_eq!(parse_u64(" 42\t"), Some(42));
    assert_eq!(parse_u64("7\n"), Some(7));
}

#[test]
fn parse_accepts_leading_plus_and_zeroes() {
    assert_eq!(parse_u64("+7"), Some(7));
    assert_eq!(parse_u64("007"), Some(7));
    assert_eq!(parse_u64("+0"), Some(0));
}

#[test]
fn parse_rejects_empty_and_sign_only() {
    assert_eq!(parse_u64(""), None);
    assert_eq!(parse_u64("   "), None);
    assert_eq!(parse_u64("+"), None);
}

#[test]
fn parse_rejects_non_digits() {
    assert_eq!(parse_u64("abc"), None);
    assert_eq!(parse_u64("-1"), None);
    assert_eq!(parse_u64("4 2"), None);
    assert_eq!(parse_u64("3.5"), None);
}

#[test]
fn parse_bounds() {
    assert_eq!(parse_u64("18446744073709551615"), Some(u64::MAX));
    assert_eq!(parse_u64("18446744073709551616"), None);
    assert_eq!(parse_u64("99999999999999999999999"), None);
}

#[test]
fn normalize_trims_and_folds() {
    assert_eq!(normalize("  HeLLo \n"), vec!['h', 'e', 'l', 'l', 'o']);
    assert_eq!(normalize("T800"), vec!['t', '8', '0', '0']);
    assert_eq!(normalize("\t \r"), Vec::<char>::new());
    assert_eq!(normalize("a b"), vec!['a', ' ', 'b']);
}
