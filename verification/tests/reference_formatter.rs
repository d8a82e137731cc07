use text_format::{Formatter, ParseError, ParseFormatter, Selection};

#[test]
fn integer_scenario_valid_input() {
    let f = ParseFormatter;
    let sel = Selection::caret(2);
    let v = <ParseFormatter as Formatter<u64>>::validate_partial_input(&f, "42", &sel);
    assert!(!v.is_err());
    assert!(v.error().is_none());
    let parsed: Result<u64, _> = f.value("42");
    assert_eq!(parsed.unwrap(), 42);
    assert_eq!(f.format(&42u64), "42");
}

#[test]
fn integer_scenario_invalid_input() {
    let f = ParseFormatter;
    let sel = Selection::caret(2);
    let v = <ParseFormatter as Formatter<u64>>::validate_partial_input(&f, "4a", &sel);
    assert!(v.is_err());
    let validation_cause = v.error().unwrap().cause();
    assert_eq!(validation_cause, Some(ParseError::InvalidDigit));
    let parsed: Result<u64, _> = f.value("4a");
    let conversion_cause = parsed.unwrap_err().cause();
    assert_eq!(conversion_cause, Some(ParseError::InvalidDigit));
    assert_eq!(validation_cause, conversion_cause);
}

#[test]
fn format_for_editing_matches_format() {
    let f = ParseFormatter;
    assert_eq!(f.format_for_editing(&90210u64), f.format(&90210u64));
}

#[test]
fn round_trip_through_text() {
    let f = ParseFormatter;
    for n in [0u64, 7, 10, 99, 12345, u64::MAX] {
        let text = f.format(&n);
        let back: Result<u64, _> = f.value(&text);
        let back = back.unwrap();
        assert_eq!(back, n);
        assert_eq!(f.format(&back), text);
    }
}

#[test]
fn partial_validation_agrees_with_conversion() {
    let f = ParseFormatter;
    let sel = Selection::caret(0);
    for text in ["", "4", "42", "4a", "-1", " 42", "18446744073709551616"] {
        let v = <ParseFormatter as Formatter<u64>>::validate_partial_input(&f, text, &sel);
        let parsed: Result<u64, _> = f.value(text);
        assert_eq!(!v.is_err(), parsed.is_ok());
    }
}

#[test]
fn validation_proposes_no_overrides() {
    let f = ParseFormatter;
    let sel = Selection::caret(1);
    let ok = <ParseFormatter as Formatter<u64>>::validate_partial_input(&f, "8", &sel);
    assert!(ok.text_change.is_none());
    assert!(ok.selection_change.is_none());
    let bad = <ParseFormatter as Formatter<u64>>::validate_partial_input(&f, "x", &sel);
    assert!(bad.text_change.is_none());
    assert!(bad.selection_change.is_none());
}

#[test]
fn conversion_error_kinds() {
    let f = ParseFormatter;
    let empty: Result<u64, _> = f.value("");
    assert_eq!(empty.unwrap_err().cause(), Some(ParseError::Empty));
    let overflow: Result<u64, _> = f.value("18446744073709551616");
    assert_eq!(overflow.unwrap_err().cause(), Some(ParseError::Overflow));
}

#[test]
fn works_for_narrower_integers_too() {
    let f = ParseFormatter;
    assert_eq!(f.format(&90210u32), "90210");
    let parsed: Result<u32, _> = f.value("4294967295");
    assert_eq!(parsed.unwrap(), u32::MAX);
    let too_big: Result<u32, _> = f.value("4294967296");
    assert_eq!(too_big.unwrap_err().cause(), Some(ParseError::Overflow));
    let still_u64: Result<u64, _> = f.value("4294967296");
    assert_eq!(still_u64.unwrap(), 4294967296);
}
