//! The failure taxonomy shared by partial validation and final conversion.

use vstd::prelude::*;
use crate::decimal::ParseError;

verus! {

/// An error that occurs when attempting to interpret text input.
///
/// Two variants and nothing more: a wrapped underlying error, whose
/// rendering and cause delegate to that error, and a plain human-readable
/// message, which carries no cause.
#[derive(Debug)]
pub enum ValidationError {
    /// A wrapped underlying parse error describing the failure.
    Wrapped(ParseError),
    /// A string describing the failure.
    Message(String),
}

/// The abstract content of a [`ValidationError`]: the wrapped cause, or the
/// message text.
#[verifier::ext_equal]
pub enum ErrorContent {
    /// A wrapped underlying parse error.
    Wrapped(ParseError),
    /// The text of a plain message.
    Message(Seq<char>),
}

impl ParseError {
    /// The rendering of this error.
    pub open spec fn spec_description(self) -> Seq<char> {
        match self {
            ParseError::Empty => "cannot parse integer from empty string"@,
            ParseError::InvalidDigit => "invalid digit found in string"@,
            ParseError::Overflow => "number too large to fit in target type"@,
        }
    }

    /// A human-readable description of this error.
    pub fn description(&self) -> (r: String)
        ensures
            r@ == self.spec_description(),
    {
        match self {
            ParseError::Empty => "cannot parse integer from empty string".to_owned(),
            ParseError::InvalidDigit => "invalid digit found in string".to_owned(),
            ParseError::Overflow => "number too large to fit in target type".to_owned(),
        }
    }
}

impl View for ValidationError {
    type V = ErrorContent;

    closed spec fn view(&self) -> ErrorContent {
        match self {
            ValidationError::Wrapped(e) => ErrorContent::Wrapped(*e),
            ValidationError::Message(s) => ErrorContent::Message(s@),
        }
    }
}

impl ValidationError {
    /// Construct a `ValidationError` wrapping an underlying [`ParseError`].
    pub fn from_err(err: ParseError) -> (r: Self)
        ensures
            r@ == ErrorContent::Wrapped(err),
    {
        ValidationError::Wrapped(err)
    }

    /// Construct a `ValidationError` with a `String`.
    pub fn with_message(msg: String) -> (r: Self)
        ensures
            r@ == ErrorContent::Message(msg@),
    {
        ValidationError::Message(msg)
    }

    /// The rendering of this error: the wrapped error's own description, or
    /// the message text.
    pub open spec fn spec_description(self) -> Seq<char> {
        match self@ {
            ErrorContent::Wrapped(e) => e.spec_description(),
            ErrorContent::Message(m) => m,
        }
    }

    /// The underlying cause, exposed for diagnostic chains.
    ///
    /// Only the wrapped variant has one; a plain message carries no cause.
    pub open spec fn spec_cause(self) -> Option<ParseError> {
        match self@ {
            ErrorContent::Wrapped(e) => Some(e),
            ErrorContent::Message(_) => None,
        }
    }

    /// A human-readable description of this error.
    pub fn description(&self) -> (r: String)
        ensures
            r@ == self.spec_description(),
    {
        match self {
            ValidationError::Wrapped(e) => e.description(),
            ValidationError::Message(s) => s.clone(),
        }
    }

    /// The underlying error this one wraps, if there is one.
    pub fn cause(&self) -> (r: Option<ParseError>)
        ensures
            r == self.spec_cause(),
    {
        match self {
            ValidationError::Wrapped(e) => Some(*e),
            ValidationError::Message(_) => None,
        }
    }
}

} // verus!
