use vstd::prelude::*;
use crate::error_tree::ErrorTree;
use crate::error_tree::TreeView;
use crate::error_tree::clone_tree;
use crate::error_tree::message_of;
use crate::writeln_error::rendered;
use crate::writeln_error::writeln_error_to_writer;

verus! {

/// The capability the engine asks of a failure value: it can say, as a
/// tree, what failure it is — its display message, plus either its single
/// underlying cause, or, where it stands for several independent
/// sub-failures collected together, the ordered list of them.
pub trait Errgonomic {
    /// The shape of the failure's tree: a function of the failure value
    /// alone.
    spec fn tree_spec(&self) -> TreeView;

    /// Builds the failure's tree. Building is total and cannot fail; the
    /// result is determined by the failure value.
    fn to_error_tree(&self) -> (t: ErrorTree)
        ensures
            t@ == self.tree_spec(),
    ;
}

/// The capability to write oneself to a byte sink.
pub trait DoWrite {
    /// The text the value writes.
    spec fn write_spec(&self) -> Seq<u8>;

    /// Appends the value's text to `out`.
    fn do_write(&self, out: &mut Vec<u8>)
        ensures
            final(out)@ == old(out)@ + self.write_spec(),
    ;
}

/// The capability to display oneself as text. This stands in for a display
/// trait the verifier cannot reason about.
pub trait DoDisplay {
    /// The displayed text.
    spec fn display_spec(&self) -> Seq<u8>;

    /// Returns the displayed text.
    fn do_display(&self) -> (r: Vec<u8>)
        ensures
            r@ == self.display_spec(),
    ;
}

impl Errgonomic for ErrorTree {
    open spec fn tree_spec(&self) -> TreeView {
        self@
    }

    fn to_error_tree(&self) -> (t: ErrorTree) {
        clone_tree(self)
    }
}

impl DoWrite for ErrorTree {
    open spec fn write_spec(&self) -> Seq<u8> {
        rendered(self@)
    }

    fn do_write(&self, out: &mut Vec<u8>) {
        writeln_error_to_writer(self, out);
    }
}

impl DoDisplay for ErrorTree {
    open spec fn display_spec(&self) -> Seq<u8> {
        message_of(self@)
    }

    fn do_display(&self) -> (r: Vec<u8>) {
        vstd::slice::slice_to_vec(self.message().as_slice())
    }
}

/// Building the tree twice from the same immutable failure value yields
/// structurally equal trees: the tree's shape is a function of the failure
/// value alone.
pub proof fn lemma_tree_building_deterministic<E: Errgonomic>(e: &E, t1: TreeView, t2: TreeView)
    requires
        t1 == e.tree_spec(),
        t2 == e.tree_spec(),
    ensures
        t1 == t2,
{
}

} // verus!
