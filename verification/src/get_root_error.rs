use vstd::prelude::*;
use crate::error_tree::ErrorTree;
use crate::error_tree::TreeView;

verus! {

/// The deepest node of the causal chain: a chain link's root is its
/// cause's root; a link without a cause, or a node that collects several
/// failures, is its own root.
pub open spec fn root_source(t: TreeView) -> TreeView
    decreases t,
{
    match t {
        TreeView::Chain { message, cause } => match cause {
            Option::Some(c) => root_source(*c),
            Option::None => t,
        },
        TreeView::Aggregate { message, children } => t,
    }
}

/// Returns the deepest source in the error chain (the root cause).
pub fn get_root_source(error: &ErrorTree) -> (root: &ErrorTree)
    ensures
        root@ == root_source(error@),
    decreases *error,
{
    match error {
        ErrorTree::Chain { message, cause } => match cause {
            Option::Some(c) => get_root_source(&**c),
            Option::None => error,
        },
        ErrorTree::Aggregate { message, children } => error,
    }
}

} // verus!
