use text_format::{Cents, CurrencyFormatter, Formatter, ParseError, Selection};

#[test]
fn currency_scenario() {
    let f = CurrencyFormatter;
    let sel = Selection::caret(3);
    let amount = Cents::new(1250);
    assert_eq!(f.format(&amount), "$12.50");
    assert_eq!(f.format_for_editing(&amount), "12.5");
    let v = f.validate_partial_input("12.", &sel);
    assert!(!v.is_err());
    let committed = f.value("12.");
    assert!(committed.is_err());
}

#[test]
fn display_format_always_shows_two_places() {
    let f = CurrencyFormatter;
    assert_eq!(f.format(&Cents::new(0)), "$0.00");
    assert_eq!(f.format(&Cents::new(5)), "$0.05");
    assert_eq!(f.format(&Cents::new(50)), "$0.50");
    assert_eq!(f.format(&Cents::new(1200)), "$12.00");
    assert_eq!(f.format(&Cents::new(1205)), "$12.05");
    assert_eq!(f.format(&Cents::new(1255)), "$12.55");
}

#[test]
fn editing_format_drops_decoration_and_trailing_zeros() {
    let f = CurrencyFormatter;
    assert_eq!(f.format_for_editing(&Cents::new(0)), "0");
    assert_eq!(f.format_for_editing(&Cents::new(5)), "0.05");
    assert_eq!(f.format_for_editing(&Cents::new(50)), "0.5");
    assert_eq!(f.format_for_editing(&Cents::new(1200)), "12");
    assert_eq!(f.format_for_editing(&Cents::new(1205)), "12.05");
    assert_eq!(f.format_for_editing(&Cents::new(1255)), "12.55");
}

#[test]
fn conversion_reads_amounts() {
    let f = CurrencyFormatter;
    assert_eq!(f.value("12.50").unwrap(), Cents::new(1250));
    assert_eq!(f.value("$12.50").unwrap(), Cents::new(1250));
    assert_eq!(f.value("12.5").unwrap(), Cents::new(1250));
    assert_eq!(f.value("12").unwrap(), Cents::new(1200));
    assert_eq!(f.value("$0.05").unwrap(), Cents::new(5));
    assert_eq!(f.value("0042").unwrap(), Cents::new(4200));
}

#[test]
fn conversion_rejects_malformed_text() {
    let f = CurrencyFormatter;
    assert_eq!(f.value("").unwrap_err().cause(), Some(ParseError::Empty));
    assert_eq!(f.value("$").unwrap_err().cause(), Some(ParseError::Empty));
    for text in ["12.", ".5", "12.345", "1.2.3", "12a", "$$1", "1,5", "-1"] {
        assert_eq!(
            f.value(text).unwrap_err().cause(),
            Some(ParseError::InvalidDigit),
            "expected invalid digit for {text:?}"
        );
    }
}

#[test]
fn conversion_rejects_overflow() {
    let f = CurrencyFormatter;
    assert_eq!(
        f.value("184467440737095516.16").unwrap_err().cause(),
        Some(ParseError::Overflow)
    );
    assert_eq!(
        f.value("18446744073709551616").unwrap_err().cause(),
        Some(ParseError::Overflow)
    );
    assert_eq!(
        f.value("184467440737095516.15").unwrap(),
        Cents::new(u64::MAX)
    );
}

#[test]
fn partial_validation_tolerates_prefixes() {
    let f = CurrencyFormatter;
    let sel = Selection::caret(0);
    for text in ["", "$", "$1", "1", "12.", "$12.", "12.3", "12.34", "$0."] {
        let v = f.validate_partial_input(text, &sel);
        assert!(!v.is_err(), "expected {text:?} to be acceptable in progress");
    }
}

#[test]
fn partial_validation_rejects_dead_ends() {
    let f = CurrencyFormatter;
    let sel = Selection::caret(0);
    for text in ["12.345", "1.2.3", "12a", "a", "1$", "$$", "-1", " 12"] {
        let v = f.validate_partial_input(text, &sel);
        assert!(v.is_err(), "expected {text:?} to be rejected");
        assert_eq!(
            v.error().unwrap().cause(),
            Some(ParseError::InvalidDigit)
        );
    }
}

#[test]
fn round_trip_through_display_text() {
    let f = CurrencyFormatter;
    for cents in [0u64, 1, 99, 100, 1250, 99999, u64::MAX] {
        let amount = Cents::new(cents);
        let text = f.format(&amount);
        let back = f.value(&text).unwrap();
        assert_eq!(back, amount);
        assert_eq!(f.format(&back), text);
    }
}
