use staff_directory::text::{decimal_string, parse_decimal, same_text};

#[test]
fn decimal_numerals() {
    assert_eq!(decimal_string(0), "0");
    assert_eq!(decimal_string(9), "9");
    assert_eq!(decimal_string(10), "10");
    assert_eq!(decimal_string(1234567890), "1234567890");
    assert_eq!(decimal_string(u64::MAX), u64::MAX.to_string());
}

#[test]
fn bounded_decimal_parsing() {
    assert_eq!(parse_decimal("255", 255), Some(255));
    assert_eq!(parse_decimal("256", 255), None);
    assert_eq!(parse_decimal("+0", 0), Some(0));
    assert_eq!(parse_decimal("18446744073709551615", u64::MAX), Some(u64::MAX));
    assert_eq!(parse_decimal("18446744073709551616", u64::MAX), None);
    assert_eq!(parse_decimal("١٢", u64::MAX), None);
}

#[test]
fn text_equality() {
    assert!(same_text("ld", "ld"));
    assert!(!same_text("ld", "l"));
    assert!(!same_text("ab", "ac"));
    assert!(same_text("", ""));
}
