//! The conversion and validation contract for one value type.

use vstd::prelude::*;
use crate::error::{ErrorContent, ValidationError};
use crate::selection::Selection;
use crate::validation::{Validation, ValidationContent};

verus! {

/// A trait for types that create, interpret, and validate textual
/// representations of values.
///
/// A formatter has two responsibilities: converting a value into an
/// appropriate string representation, and attempting to convert a string
/// back into the appropriate value.
///
/// In addition, a formatter performs validation on *partial* strings; that
/// is, it determines whether or not a string represents a potentially valid
/// value, even if it is not currently valid. Where the boundary between
/// "invalid forever" and "invalid right now" lies is domain-specific and
/// left to each implementation, through its [`accepts_partial`] function.
///
/// Every implementation carries the round-trip guarantee as a proof
/// obligation: text produced by [`format`] always converts back, via
/// [`value`], to a value that formats to the same text. That is the one hard
/// correctness law the contract imposes; see [`lemma_round_trip`].
///
/// [`accepts_partial`]: Formatter::accepts_partial
/// [`format`]: Formatter::format
/// [`value`]: Formatter::value
/// [`lemma_round_trip`]: Formatter::lemma_round_trip
pub trait Formatter<T>: Sized {
    /// The canonical display text of a value.
    spec fn spec_format(&self, value: T) -> Seq<char>;

    /// The text of a value while it is being edited.
    spec fn spec_format_for_editing(&self, value: T) -> Seq<char>;

    /// True of input this formatter accepts as a potentially valid value,
    /// even if the input is not a complete value yet.
    spec fn accepts_partial(&self, input: Seq<char>) -> bool;

    /// The full outcome of validating some partial input: the result and
    /// any text or selection override the formatter proposes.
    spec fn spec_validate(&self, input: Seq<char>, sel: Selection) -> ValidationContent;

    /// The value that committed text converts to, or the content of the
    /// error that conversion reports.
    spec fn spec_value(&self, input: Seq<char>) -> Result<T, ErrorContent>;

    /// Return the string representation of this value.
    fn format(&self, value: &T) -> (r: String)
        ensures
            r@ == self.spec_format(*value),
    ;

    /// Return the string representation of this value, to be used during
    /// editing.
    ///
    /// This can be used if you want the text to differ based on whether or
    /// not it is being edited; for instance you might display a currency
    /// symbol when not editing, but not display it during editing.
    fn format_for_editing(&self, value: &T) -> (r: String)
        ensures
            r@ == self.spec_format_for_editing(*value),
    ;

    /// Determine whether the newly edited text is valid for this value type.
    ///
    /// This always returns a [`Validation`] object which indicates if
    /// validation was successful or not, and which can also optionally,
    /// regardless of success or failure, include new text and selection
    /// values that should replace the current ones.
    ///
    /// If no replacement text is set and validation is not successful, the
    /// edit is discarded by the host.
    fn validate_partial_input(&self, input: &str, sel: &Selection) -> (v: Validation)
        ensures
            v@ == self.spec_validate(input@, *sel),
            !v.spec_is_err() <==> self.accepts_partial(input@),
    ;

    /// The value represented by the input, or an error if the input is
    /// invalid.
    ///
    /// This returns `Ok` for any string created by [`format`]; see
    /// [`lemma_round_trip`].
    ///
    /// [`format`]: Formatter::format
    /// [`lemma_round_trip`]: Formatter::lemma_round_trip
    fn value(&self, input: &str) -> (r: Result<T, ValidationError>)
        ensures
            r is Ok <==> self.spec_value(input@) is Ok,
            r matches Ok(val) ==> self.spec_value(input@) == Ok::<T, ErrorContent>(val),
            r matches Err(e) ==> self.spec_value(input@) == Err::<T, ErrorContent>(e@),
    ;

    /// The round-trip law: converting the text a value formats to always
    /// succeeds, and yields a value textually equivalent to the original.
    proof fn lemma_round_trip(&self, value: T)
        ensures
            self.spec_value(self.spec_format(value)) is Ok,
            self.spec_format(self.spec_value(self.spec_format(value))->Ok_0) == self.spec_format(
                value,
            ),
    ;
}

} // verus!
