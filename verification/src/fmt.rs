use vstd::prelude::*;
use crate::errgonomic::Errgonomic;
use crate::writeln_error::rendered;
use crate::writeln_error::writeln_error_to_writer;

verus! {

/// Formats `error` through its failure capability: its whole trace is
/// appended to `out`.
pub fn fmt<E: Errgonomic>(error: &E, out: &mut Vec<u8>)
    ensures
        final(out)@ == old(out)@ + rendered(error.tree_spec()),
{
    let tree = error.to_error_tree();
    writeln_error_to_writer(&tree, out);
}

} // verus!
