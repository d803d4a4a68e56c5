use rustyvxcan::text::decimal_string;
use rustyvxcan::text::parse_decimal;

#[test]
fn decimal_string_writes_numbers() {
    assert_eq!(decimal_string(0), "0");
    assert_eq!(decimal_string(7), "7");
    assert_eq!(decimal_string(10), "10");
    assert_eq!(decimal_string(1234567890), "1234567890");
    assert_eq!(decimal_string(u32::MAX), "4294967295");
}

#[test]
fn decimal_string_agrees_with_the_standard_formatting() {
    for n in [0u32, 1, 9, 10, 11, 99, 100, 101, 65535, 65536, 999999999, 1000000000, u32::MAX] {
        assert_eq!(decimal_string(n), format!("{}", n));
    }
}

#[test]
fn parse_decimal_reads_digits() {
    assert_eq!(parse_decimal("0"), Some(0));
    assert_eq!(parse_decimal("42"), Some(42));
    assert_eq!(parse_decimal("007"), Some(7));
    assert_eq!(parse_decimal("4294967295"), Some(u32::MAX));
    assert_eq!(parse_decimal("00000000004294967295"), Some(u32::MAX));
}

#[test]
fn parse_decimal_takes_one_plus_sign() {
    assert_eq!(parse_decimal("+5"), Some(5));
    assert_eq!(parse_decimal("+0"), Some(0));
    assert_eq!(parse_decimal("++5"), None);
    assert_eq!(parse_decimal("+"), None);
    assert_eq!(parse_decimal("5+"), None);
}

#[test]
fn parse_decimal_refuses_anything_else() {
    assert_eq!(parse_decimal(""), None);
    assert_eq!(parse_decimal("-1"), None);
    assert_eq!(parse_decimal("-0"), None);
    assert_eq!(parse_decimal(" 1"), None);
    assert_eq!(parse_decimal("1 "), None);
    assert_eq!(parse_decimal("1_000"), None);
    assert_eq!(parse_decimal("0x10"), None);
    assert_eq!(parse_decimal("1.0"), None);
    assert_eq!(parse_decimal("٣"), None);
    assert_eq!(parse_decimal("12a"), None);
}

#[test]
fn parse_decimal_refuses_what_does_not_fit() {
    assert_eq!(parse_decimal("4294967296"), None);
    assert_eq!(parse_decimal("99999999999999999999999999999"), None);
    assert_eq!(parse_decimal("+4294967296"), None);
}

#[test]
fn parse_decimal_agrees_with_the_standard_parser() {
    for text in [
        "", "+", "-", "0", "+0", "-0", "1", "01", "4294967295", "4294967296", "42949672950", " 3",
        "3 ", "3a", "a3", "+3", "++3", "+-3", "٣", "1e3", "0000", "18446744073709551616",
    ] {
        assert_eq!(parse_decimal(text), text.parse::<u32>().ok(), "for {:?}", text);
    }
}
