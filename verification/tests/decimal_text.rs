use text_format::decimal::{format_u64, parse_u64};
use text_format::ParseError;

#[test]
fn format_single_digits() {
    assert_eq!(format_u64(0), "0");
    assert_eq!(format_u64(7), "7");
    assert_eq!(format_u64(9), "9");
}

#[test]
fn format_multiple_digits() {
    assert_eq!(format_u64(10), "10");
    assert_eq!(format_u64(42), "42");
    assert_eq!(format_u64(90210), "90210");
    assert_eq!(format_u64(1000000), "1000000");
}

#[test]
fn format_largest_value() {
    assert_eq!(format_u64(u64::MAX), "18446744073709551615");
}

#[test]
fn parse_plain_numbers() {
    assert_eq!(parse_u64("0"), Ok(0));
    assert_eq!(parse_u64("42"), Ok(42));
    assert_eq!(parse_u64("90210"), Ok(90210));
}

#[test]
fn parse_accepts_leading_zeros() {
    assert_eq!(parse_u64("0042"), Ok(42));
    assert_eq!(parse_u64("000"), Ok(0));
}

#[test]
fn parse_largest_value() {
    assert_eq!(parse_u64("18446744073709551615"), Ok(u64::MAX));
}

#[test]
fn parse_empty_is_rejected() {
    assert_eq!(parse_u64(""), Err(ParseError::Empty));
}

#[test]
fn parse_rejects_non_digits() {
    assert_eq!(parse_u64("4a"), Err(ParseError::InvalidDigit));
    assert_eq!(parse_u64("-1"), Err(ParseError::InvalidDigit));
    assert_eq!(parse_u64("+42"), Err(ParseError::InvalidDigit));
    assert_eq!(parse_u64("4 2"), Err(ParseError::InvalidDigit));
}

#[test]
fn parse_rejects_overflow() {
    assert_eq!(parse_u64("18446744073709551616"), Err(ParseError::Overflow));
    assert_eq!(parse_u64("99999999999999999999999"), Err(ParseError::Overflow));
}

#[test]
fn parse_prefers_invalid_digit_over_overflow() {
    assert_eq!(
        parse_u64("99999999999999999999999x"),
        Err(ParseError::InvalidDigit)
    );
}

#[test]
fn round_trip_samples() {
    for n in [0, 1, 9, 10, 11, 99, 100, 12345, 10_000_000_000, u64::MAX] {
        assert_eq!(parse_u64(&format_u64(n)), Ok(n));
    }
}
