//! The outcome of validating partial input.

use vstd::prelude::*;
use crate::decimal::ParseError;
use crate::error::{ErrorContent, ValidationError};
use crate::selection::Selection;

verus! {

/// The result of a [`Formatter`] attempting to validate some partial input.
///
/// A `Validation` is built once — success, or failure with a reason — with
/// optional replacement text and selection attached by the chaining methods,
/// and is immutable after that.
///
/// [`Formatter`]: crate::formatter::Formatter
pub struct Validation {
    result: Result<(), ValidationError>,
    /// A manual selection override.
    ///
    /// This will be set as the new selection, regardless of whether or not
    /// validation succeeded or failed.
    pub selection_change: Option<Selection>,
    /// A manual text override.
    ///
    /// This will be set as the new text, regardless of whether or not
    /// validation failed.
    pub text_change: Option<String>,
}

/// The abstract content of a [`Validation`]: its result and the two
/// optional overrides.
#[verifier::ext_equal]
pub struct ValidationContent {
    /// Success, or the content of the failure reason.
    pub result: Result<(), ErrorContent>,
    /// The proposed replacement selection, if any.
    pub selection_change: Option<Selection>,
    /// The proposed replacement text, if any.
    pub text_change: Option<Seq<char>>,
}

impl View for Validation {
    type V = ValidationContent;

    closed spec fn view(&self) -> ValidationContent {
        ValidationContent {
            result: match self.result {
                Ok(_) => Ok(()),
                Err(e) => Err(e@),
            },
            selection_change: self.selection_change,
            text_change: match self.text_change {
                Some(t) => Some(t@),
                None => None,
            },
        }
    }
}

impl Validation {
    /// True when this `Validation` indicates failure.
    pub open spec fn spec_is_err(self) -> bool {
        self@.result is Err
    }

    /// The content of the failure reason, if validation failed.
    pub open spec fn spec_error(self) -> Option<ErrorContent> {
        match self@.result {
            Ok(_) => None,
            Err(e) => Some(e),
        }
    }

    /// Create a `Validation` indicating success, with no overrides.
    pub fn success() -> (r: Self)
        ensures
            r@ == (ValidationContent {
                result: Ok(()),
                selection_change: None,
                text_change: None,
            }),
    {
        let r = Validation { result: Ok(()), selection_change: None, text_change: None };
        proof {
            assert(r@ =~= (ValidationContent {
                result: Ok(()),
                selection_change: None,
                text_change: None,
            }));
        }
        r
    }

    /// Create a `Validation` wrapping an underlying error as the failure
    /// reason, with no overrides.
    pub fn failure_with_err(err: ParseError) -> (r: Self)
        ensures
            r@ == (ValidationContent {
                result: Err(ErrorContent::Wrapped(err)),
                selection_change: None,
                text_change: None,
            }),
    {
        let r = Validation {
            result: Err(ValidationError::from_err(err)),
            ..Validation::success()
        };
        proof {
            assert(r@ =~= (ValidationContent {
                result: Err(ErrorContent::Wrapped(err)),
                selection_change: None,
                text_change: None,
            }));
        }
        r
    }

    /// Create a `Validation` with a `String` as the failure reason, with no
    /// overrides.
    pub fn failure_with_message(message: String) -> (r: Self)
        ensures
            r@ == (ValidationContent {
                result: Err(ErrorContent::Message(message@)),
                selection_change: None,
                text_change: None,
            }),
    {
        let ghost m = message@;
        let r = Validation {
            result: Err(ValidationError::with_message(message)),
            ..Validation::success()
        };
        proof {
            assert(r@ =~= (ValidationContent {
                result: Err(ErrorContent::Message(m)),
                selection_change: None,
                text_change: None,
            }));
        }
        r
    }

    /// Optionally set a `String` that will replace the current contents.
    pub fn change_text(self, text: String) -> (r: Self)
        ensures
            r@ == (ValidationContent { text_change: Some(text@), ..self@ }),
    {
        let ghost t = text@;
        let mut r = self;
        r.text_change = Some(text);
        proof {
            assert(r@ =~= (ValidationContent { text_change: Some(t), ..self@ }));
        }
        r
    }

    /// Optionally set a [`Selection`] that will replace the current one.
    pub fn change_selection(self, sel: Selection) -> (r: Self)
        ensures
            r@ == (ValidationContent { selection_change: Some(sel), ..self@ }),
    {
        let mut r = self;
        r.selection_change = Some(sel);
        proof {
            assert(r@ =~= (ValidationContent { selection_change: Some(sel), ..self@ }));
        }
        r
    }

    /// Returns `true` if this `Validation` indicates failure.
    pub fn is_err(&self) -> (r: bool)
        ensures
            r == self.spec_is_err(),
    {
        self.result.is_err()
    }

    /// If validation failed, return the underlying [`ValidationError`].
    pub fn error(&self) -> (r: Option<&ValidationError>)
        ensures
            r is Some <==> self.spec_is_err(),
            r matches Some(e) ==> Some(e@) == self.spec_error(),
    {
        match &self.result {
            Ok(_) => None,
            Err(e) => Some(e),
        }
    }

    /// The text the host observes after applying this `Validation` to a
    /// proposed edit: the override if one was set; otherwise the proposed
    /// text on success and the unchanged pre-edit text on failure.
    pub open spec fn spec_resolved_text(self, current: Seq<char>, proposed: Seq<char>) -> Seq<
        char,
    > {
        match self@.text_change {
            Some(t) => t,
            None => if self.spec_is_err() {
                current
            } else {
                proposed
            },
        }
    }

    /// Apply this `Validation` to a proposed edit of the text buffer.
    ///
    /// `current` is the buffer before the edit and `proposed` the text the
    /// edit would produce; the result is what the buffer must hold afterward.
    pub fn resolved_text(&self, current: &str, proposed: &str) -> (r: String)
        ensures
            r@ == self.spec_resolved_text(current@, proposed@),
    {
        match &self.text_change {
            Some(t) => t.clone(),
            None => if self.is_err() {
                current.to_owned()
            } else {
                proposed.to_owned()
            },
        }
    }
}

/// A failing `Validation` that proposes no replacement text discards the
/// edit entirely: the host-observable text stays the pre-edit text.
pub proof fn lemma_failed_edit_discarded(v: Validation, current: Seq<char>, proposed: Seq<char>)
    requires
        v@.text_change is None,
        v.spec_is_err(),
    ensures
        v.spec_resolved_text(current, proposed) == current,
{
}

/// A `Validation` carrying a text override replaces the buffer with that
/// text, whether validation succeeded or failed.
pub proof fn lemma_text_override_applies(
    v: Validation,
    t: Seq<char>,
    current: Seq<char>,
    proposed: Seq<char>,
)
    requires
        v@.text_change == Some(t),
    ensures
        v.spec_resolved_text(current, proposed) == t,
{
}

/// A `Validation` has a failure reason exactly when it indicates failure:
/// `error()` returns `None` iff `is_err()` is `false`.
pub proof fn lemma_error_iff_failure(v: Validation)
    ensures
        v.spec_error() is None <==> !v.spec_is_err(),
{
}

} // verus!
