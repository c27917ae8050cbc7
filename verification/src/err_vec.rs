use vstd::prelude::*;
use crate::bytes::append_bytes;
use crate::bytes::decimal_bytes;
use crate::bytes::decimal_digits;
use crate::errgonomic::DoDisplay;
use crate::errgonomic::Errgonomic;
use crate::error_tree::ErrorTree;
use crate::error_tree::TreeView;
use crate::error_tree::clone_tree;
use crate::error_tree::lemma_trees_view_index;
use crate::error_tree::tree_view;
use crate::error_tree::trees_view;

verus! {

/// The message of a failure that collects `n` errors:
/// `encountered N errors`.
pub open spec fn encountered_errors_message(n: nat) -> Seq<u8> {
    seq![101u8, 110, 99, 111, 117, 110, 116, 101, 114, 101, 100, 32] + decimal_digits(n)
        + seq![32u8, 101, 114, 114, 111, 114, 115]
}

/// Builds the message `encountered N errors`.
pub fn encountered_errors_bytes(n: usize) -> (v: Vec<u8>)
    ensures
        v@ == encountered_errors_message(n as nat),
{
    let mut v: Vec<u8> = Vec::new();
    v.push(101);
    v.push(110);
    v.push(99);
    v.push(111);
    v.push(117);
    v.push(110);
    v.push(116);
    v.push(101);
    v.push(114);
    v.push(101);
    v.push(100);
    v.push(32);
    let digits = decimal_bytes(n);
    append_bytes(&mut v, digits.as_slice());
    v.push(32);
    v.push(101);
    v.push(114);
    v.push(114);
    v.push(111);
    v.push(114);
    v.push(115);
    proof {
        assert(v@ =~= encountered_errors_message(n as nat));
    }
    v
}

/// A failure standing for several collected failures, held as their trees.
/// Its own message counts them; the collected failures are its children.
#[derive(Default, Debug)]
pub struct ErrVec {
    /// The collected failures' trees, in collection order.
    pub inner: Vec<ErrorTree>,
}

impl Errgonomic for ErrVec {
    open spec fn tree_spec(&self) -> TreeView {
        TreeView::Aggregate {
            message: encountered_errors_message(self.inner@.len()),
            children: trees_view(self.inner@),
        }
    }

    fn to_error_tree(&self) -> (t: ErrorTree) {
        let message = encountered_errors_bytes(self.inner.len());
        let mut children: Vec<ErrorTree> = Vec::new();
        let mut i: usize = 0;
        while i < self.inner.len()
            invariant
                i <= self.inner@.len(),
                children@.len() == i,
                forall|k: int|
                    0 <= k < i ==> tree_view(#[trigger] children@[k]) == tree_view(
                        self.inner@[k],
                    ),
            decreases self.inner@.len() - i,
        {
            let c = clone_tree(&self.inner[i]);
            children.push(c);
            i = i + 1;
        }
        let t = ErrorTree::Aggregate { message, children };
        proof {
            lemma_trees_view_index(self.inner@);
            lemma_trees_view_index(t->Aggregate_children@);
            assert(trees_view(t->Aggregate_children@) =~= trees_view(self.inner@));
            assert(tree_view(t) =~~= self.tree_spec());
        }
        t
    }
}

impl DoDisplay for ErrVec {
    open spec fn display_spec(&self) -> Seq<u8> {
        encountered_errors_message(self.inner@.len())
    }

    fn do_display(&self) -> (r: Vec<u8>) {
        encountered_errors_bytes(self.inner.len())
    }
}

impl ErrVec {
    /// Collects the given failures: each becomes its tree, in order.
    pub fn new<E: Errgonomic>(errors: Vec<E>) -> (r: ErrVec)
        ensures
            r.inner@.len() == errors@.len(),
            forall|i: int|
                0 <= i < errors@.len() ==> (#[trigger] r.inner@[i])@ == errors@[i].tree_spec(),
    {
        let mut inner: Vec<ErrorTree> = Vec::new();
        let mut i: usize = 0;
        while i < errors.len()
            invariant
                i <= errors@.len(),
                inner@.len() == i,
                forall|k: int|
                    0 <= k < i ==> (#[trigger] inner@[k])@ == errors@[k].tree_spec(),
            decreases errors@.len() - i,
        {
            let e = &errors[i];
            inner.push(e.to_error_tree());
            i = i + 1;
        }
        ErrVec { inner }
    }
}

} // verus!
