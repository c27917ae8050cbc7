use vstd::prelude::*;
use crate::errgonomic::DoDisplay;

verus! {

/// A value paired with its display text, captured when the pair was made,
/// so the text survives even where only the value's debugging view is
/// wanted later.
#[derive(Clone)]
pub struct DisplayDebugPair<T> {
    /// The display text of `debug`, captured at construction.
    pub display: Vec<u8>,
    /// The underlying value.
    pub debug: T,
}

impl<T: DoDisplay> DisplayDebugPair<T> {
    /// Pairs the value with its display text.
    pub fn from(value: T) -> (r: DisplayDebugPair<T>)
        ensures
            r.display@ == value.display_spec(),
            r.debug == value,
    {
        let display = value.do_display();
        DisplayDebugPair { display, debug: value }
    }
}

} // verus!
