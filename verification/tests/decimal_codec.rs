use admin_files::decimal::format_u64;
use admin_files::decimal::parse_u64;

#[test]
fn formats_canonical_decimals() {
    assert_eq!(format_u64(0), "0");
    assert_eq!(format_u64(7), "7");
    assert_eq!(format_u64(42), "42");
    assert_eq!(format_u64(1009), "1009");
    assert_eq!(format_u64(u64::MAX), "18446744073709551615");
}

#[test]
fn parses_what_it_formats() {
    let cases: Vec<u64> = vec![0, 1, 9, 10, 99, 1000, 123456789, u64::MAX];
    for n in cases {
        assert_eq!(parse_u64(&format_u64(n)), Some(n));
    }
}

#[test]
fn accepts_leading_zeros() {
    assert_eq!(parse_u64("007"), Some(7));
    assert_eq!(parse_u64("000"), Some(0));
}

#[test]
fn rejects_non_digits_and_empty() {
    assert_eq!(parse_u64(""), None);
    assert_eq!(parse_u64("12a"), None);
    assert_eq!(parse_u64("-5"), None);
    assert_eq!(parse_u64(" 5"), None);
    assert_eq!(parse_u64("4.2"), None);
}

#[test]
fn rejects_values_past_u64() {
    assert_eq!(parse_u64("18446744073709551615"), Some(u64::MAX));
    assert_eq!(parse_u64("18446744073709551616"), None);
    assert_eq!(parse_u64("99999999999999999999999"), None);
}
