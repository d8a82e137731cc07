//! The text selection supplied by the editing host.

use vstd::prelude::*;

verus! {

/// A range over the code-unit positions of the host's text buffer.
///
/// The host owns the live buffer and the selection; it hands a `Selection`
/// to each partial-input check, and a
/// [`Validation`](crate::validation::Validation) may propose a replacement.
/// This type holds no invariant of its own: `anchor` is where the selection
/// began and `active` is the moving end, and either may be the smaller.
#[derive(Clone, Copy, Debug, PartialEq, Eq, Structural)]
pub struct Selection {
    /// The fixed end of the selection.
    pub anchor: usize,
    /// The moving end of the selection; the caret position.
    pub active: usize,
}

impl Selection {
    /// A caret (empty selection) at `pos`.
    pub fn caret(pos: usize) -> (r: Self)
        ensures
            r == (Selection { anchor: pos, active: pos }),
    {
        Selection { anchor: pos, active: pos }
    }

    /// A selection from `anchor` to `active`.
    pub fn new(anchor: usize, active: usize) -> (r: Self)
        ensures
            r == (Selection { anchor, active }),
    {
        Selection { anchor, active }
    }
}

} // verus!
