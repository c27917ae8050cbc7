use vstd::prelude::*;

verus! {

/// A wrapper whose display text is the inner value's debugging text. It is
/// for values that have no display text of their own.
#[derive(Ord, PartialOrd, Eq, PartialEq, Copy, Clone, Debug)]
pub struct DisplayAsDebug<T>(
    /// Inner value, shown by its debugging text everywhere.
    pub T,
);

impl<T> core::convert::From<T> for DisplayAsDebug<T> {
    fn from(value: T) -> (r: DisplayAsDebug<T>) {
        DisplayAsDebug(value)
    }
}

impl<T> vstd::std_specs::convert::FromSpecImpl<T> for DisplayAsDebug<T> {
    open spec fn obeys_from_spec() -> bool {
        true
    }

    open spec fn from_spec(value: T) -> DisplayAsDebug<T> {
        DisplayAsDebug(value)
    }
}

} // verus!
