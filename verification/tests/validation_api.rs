use text_format::{ParseError, Selection, Validation, ValidationError};

#[test]
fn success_has_no_error_and_no_overrides() {
    let v = Validation::success();
    assert!(!v.is_err());
    assert!(v.error().is_none());
    assert!(v.text_change.is_none());
    assert!(v.selection_change.is_none());
}

#[test]
fn failure_with_err_wraps_the_cause() {
    let v = Validation::failure_with_err(ParseError::Overflow);
    assert!(v.is_err());
    let e = v.error().unwrap();
    assert_eq!(e.cause(), Some(ParseError::Overflow));
    assert!(v.text_change.is_none());
    assert!(v.selection_change.is_none());
}

#[test]
fn failure_with_message_has_no_cause() {
    let v = Validation::failure_with_message("amount must be positive".to_string());
    assert!(v.is_err());
    let e = v.error().unwrap();
    assert_eq!(e.cause(), None);
    assert_eq!(e.description(), "amount must be positive");
}

#[test]
fn error_is_none_iff_not_err() {
    let outcomes = [
        Validation::success(),
        Validation::success().change_text("7".to_string()),
        Validation::failure_with_err(ParseError::Empty),
        Validation::failure_with_message("no".to_string()),
        Validation::failure_with_err(ParseError::InvalidDigit).change_text("0".to_string()),
    ];
    for v in outcomes {
        assert_eq!(v.error().is_none(), !v.is_err());
    }
}

#[test]
fn overrides_chain_onto_either_result() {
    let sel = Selection::new(0, 2);
    let ok = Validation::success()
        .change_text("12.50".to_string())
        .change_selection(sel);
    assert!(!ok.is_err());
    assert_eq!(ok.text_change.as_deref(), Some("12.50"));
    assert_eq!(ok.selection_change, Some(sel));

    let bad = Validation::failure_with_err(ParseError::InvalidDigit)
        .change_text("42".to_string());
    assert!(bad.is_err());
    assert_eq!(bad.text_change.as_deref(), Some("42"));
    assert!(bad.selection_change.is_none());
}

#[test]
fn failed_validation_without_override_discards_the_edit() {
    let v = Validation::failure_with_err(ParseError::InvalidDigit);
    let after = v.resolved_text("12", "12a");
    assert_eq!(after, "12");
}

#[test]
fn successful_validation_without_override_keeps_the_edit() {
    let v = Validation::success();
    let after = v.resolved_text("12", "124");
    assert_eq!(after, "124");
}

#[test]
fn text_override_replaces_the_buffer_even_on_failure() {
    let v = Validation::failure_with_message("cut to length".to_string())
        .change_text("12.34".to_string());
    let after = v.resolved_text("12.34", "12.345");
    assert_eq!(after, "12.34");
}

#[test]
fn validation_error_constructors() {
    let wrapped = ValidationError::from_err(ParseError::InvalidDigit);
    assert_eq!(wrapped.cause(), Some(ParseError::InvalidDigit));
    assert_eq!(wrapped.description(), "invalid digit found in string");

    let message = ValidationError::with_message("out of range".to_string());
    assert_eq!(message.cause(), None);
    assert_eq!(message.description(), "out of range");
}

#[test]
fn parse_error_descriptions() {
    assert_eq!(
        ParseError::Empty.description(),
        "cannot parse integer from empty string"
    );
    assert_eq!(
        ParseError::InvalidDigit.description(),
        "invalid digit found in string"
    );
    assert_eq!(
        ParseError::Overflow.description(),
        "number too large to fit in target type"
    );
}

#[test]
fn selections() {
    let caret = Selection::caret(4);
    assert_eq!(caret.anchor, 4);
    assert_eq!(caret.active, 4);
    let range = Selection::new(1, 5);
    assert_eq!(range.anchor, 1);
    assert_eq!(range.active, 5);
}
