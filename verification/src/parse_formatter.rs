//! A naive [`Formatter`] backed by a value type's own canonical parser.

use vstd::prelude::*;
use crate::decimal::{self, ParseError};
use crate::error::{ErrorContent, ValidationError};
use crate::formatter::Formatter;
use crate::selection::Selection;
use crate::validation::{Validation, ValidationContent};

verus! {

/// A value type with a canonical textual round trip: it renders to one
/// string, and its parser reads that string (and possibly others) back.
///
/// Implementations carry the round-trip obligation
/// [`lemma_parse_of_render`], which is what lets [`ParseFormatter`] satisfy
/// the [`Formatter`] round-trip law for any such type.
///
/// [`lemma_parse_of_render`]: ParseableValue::lemma_parse_of_render
pub trait ParseableValue: Sized {
    /// The canonical rendering of this value.
    spec fn spec_render(self) -> Seq<char>;

    /// The value a piece of text parses to, or the reason it is rejected.
    spec fn spec_parse(input: Seq<char>) -> Result<Self, ParseError>;

    /// Render this value as its canonical text.
    fn render(&self) -> (r: String)
        ensures
            r@ == self.spec_render(),
    ;

    /// Parse a value back out of text.
    fn parse(input: &str) -> (r: Result<Self, ParseError>)
        ensures
            r == Self::spec_parse(input@),
    ;

    /// Parsing the canonical rendering returns the value itself.
    proof fn lemma_parse_of_render(self)
        ensures
            Self::spec_parse(self.spec_render()) == Ok::<Self, ParseError>(self),
    ;
}

impl ParseableValue for u64 {
    open spec fn spec_render(self) -> Seq<char> {
        decimal::dec_rep(self as nat)
    }

    open spec fn spec_parse(input: Seq<char>) -> Result<Self, ParseError> {
        decimal::spec_parse_u64(input)
    }

    fn render(&self) -> String {
        decimal::format_u64(*self)
    }

    fn parse(input: &str) -> Result<Self, ParseError> {
        decimal::parse_u64(input)
    }

    proof fn lemma_parse_of_render(self) {
        decimal::lemma_dec_val_of_dec_rep(self as nat);
    }
}

impl ParseableValue for u32 {
    open spec fn spec_render(self) -> Seq<char> {
        decimal::dec_rep(self as nat)
    }

    open spec fn spec_parse(input: Seq<char>) -> Result<Self, ParseError> {
        match decimal::spec_parse_u64(input) {
            Ok(n) => if n <= u32::MAX as u64 {
                Ok(n as u32)
            } else {
                Err(ParseError::Overflow)
            },
            Err(e) => Err(e),
        }
    }

    fn render(&self) -> String {
        decimal::format_u64(*self as u64)
    }

    fn parse(input: &str) -> Result<Self, ParseError> {
        match decimal::parse_u64(input) {
            Ok(n) => if n <= u32::MAX as u64 {
                Ok(n as u32)
            } else {
                Err(ParseError::Overflow)
            },
            Err(e) => Err(e),
        }
    }

    proof fn lemma_parse_of_render(self) {
        decimal::lemma_dec_val_of_dec_rep(self as nat);
    }
}

/// A naive [`Formatter`] for any [`ParseableValue`].
///
/// Its display text is the value's canonical rendering, unchanged during
/// editing; partial validation attempts a full parse of the input and
/// reports success or the wrapped parse error — by design it tolerates no
/// merely-partial input, as the simplest reference behavior; and final
/// conversion performs the same parse, mapping failure to the wrapped-error
/// variant of [`ValidationError`].
pub struct ParseFormatter;

impl<T: ParseableValue> Formatter<T> for ParseFormatter {
    open spec fn spec_format(&self, value: T) -> Seq<char> {
        value.spec_render()
    }

    open spec fn spec_format_for_editing(&self, value: T) -> Seq<char> {
        value.spec_render()
    }

    open spec fn accepts_partial(&self, input: Seq<char>) -> bool {
        T::spec_parse(input) is Ok
    }

    open spec fn spec_validate(&self, input: Seq<char>, sel: Selection) -> ValidationContent {
        ValidationContent {
            result: match T::spec_parse(input) {
                Ok(_) => Ok(()),
                Err(e) => Err(ErrorContent::Wrapped(e)),
            },
            selection_change: None,
            text_change: None,
        }
    }

    open spec fn spec_value(&self, input: Seq<char>) -> Result<T, ErrorContent> {
        match T::spec_parse(input) {
            Ok(val) => Ok(val),
            Err(e) => Err(ErrorContent::Wrapped(e)),
        }
    }

    fn format(&self, value: &T) -> String {
        value.render()
    }

    fn format_for_editing(&self, value: &T) -> String {
        value.render()
    }

    fn validate_partial_input(&self, input: &str, _sel: &Selection) -> Validation {
        match T::parse(input) {
            Ok(_) => Validation::success(),
            Err(e) => Validation::failure_with_err(e),
        }
    }

    fn value(&self, input: &str) -> Result<T, ValidationError> {
        match T::parse(input) {
            Ok(val) => Ok(val),
            Err(e) => Err(ValidationError::from_err(e)),
        }
    }

    proof fn lemma_round_trip(&self, value: T) {
        value.lemma_parse_of_render();
    }
}

/// The reference-implementation law: the parser-backed formatter accepts a
/// string as partial input exactly when final conversion of that string
/// succeeds, for all strings.
pub proof fn lemma_partial_iff_value<T: ParseableValue>(f: ParseFormatter, input: Seq<char>)
    ensures
        <ParseFormatter as Formatter<T>>::accepts_partial(&f, input) <==> <ParseFormatter as Formatter<
            T,
        >>::spec_value(&f, input) is Ok,
{
}

} // verus!
