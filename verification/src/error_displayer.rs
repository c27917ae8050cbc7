use vstd::prelude::*;
use crate::errgonomic::Errgonomic;
use crate::writeln_error::rendered;
use crate::writeln_error::writeln_error_to_writer;

verus! {

/// Borrows a failure to display it as its whole trace.
pub struct ErrorDisplayer<'a, E>(
    /// The borrowed failure.
    pub &'a E,
);

impl<'a, E: Errgonomic> ErrorDisplayer<'a, E> {
    /// Appends the borrowed failure's trace to `out`.
    pub fn fmt(&self, out: &mut Vec<u8>)
        ensures
            final(out)@ == old(out)@ + rendered(self.0.tree_spec()),
    {
        let tree = self.0.to_error_tree();
        writeln_error_to_writer(&tree, out);
    }
}

impl<'a, E> core::convert::From<&'a E> for ErrorDisplayer<'a, E> {
    fn from(error: &'a E) -> (r: ErrorDisplayer<'a, E>) {
        ErrorDisplayer(error)
    }
}

impl<'a, E> vstd::std_specs::convert::FromSpecImpl<&'a E> for ErrorDisplayer<'a, E> {
    open spec fn obeys_from_spec() -> bool {
        true
    }

    open spec fn from_spec(error: &'a E) -> ErrorDisplayer<'a, E> {
        ErrorDisplayer(error)
    }
}

} // verus!
