use vstd::prelude::*;
use crate::errgonomic::DoDisplay;

verus! {

/// A wrapper whose debugging text is the inner value's display text. It is
/// for values whose display text is the easier one to read.
#[derive(Ord, PartialOrd, Eq, PartialEq, Copy, Clone)]
pub struct DebugAsDisplay<T>(
    /// Inner value, shown by its display text everywhere.
    pub T,
);

impl<T: DoDisplay> DoDisplay for DebugAsDisplay<T> {
    open spec fn display_spec(&self) -> Seq<u8> {
        self.0.display_spec()
    }

    fn do_display(&self) -> (r: Vec<u8>) {
        self.0.do_display()
    }
}

impl<T> core::convert::From<T> for DebugAsDisplay<T> {
    fn from(value: T) -> (r: DebugAsDisplay<T>) {
        DebugAsDisplay(value)
    }
}

impl<T> vstd::std_specs::convert::FromSpecImpl<T> for DebugAsDisplay<T> {
    open spec fn obeys_from_spec() -> bool {
        true
    }

    open spec fn from_spec(value: T) -> DebugAsDisplay<T> {
        DebugAsDisplay(value)
    }
}

} // verus!
