use vstd::prelude::*;

verus! {

/// A renderable failure.
///
/// A node is either a *chain link* — a human-readable message plus at most
/// one underlying cause — or an *aggregate* — a message plus an ordered
/// list of independent child failures, each itself a chain or aggregate.
/// Messages are byte strings so that a report can be streamed to any byte
/// sink without caring how the text was produced.
#[derive(Debug, PartialEq, Eq)]
pub enum ErrorTree {
    /// A single failure with at most one underlying cause.
    Chain {
        /// The failure's display message.
        message: Vec<u8>,
        /// The underlying cause, if any.
        cause: Option<Box<ErrorTree>>,
    },
    /// A failure standing for several independent sub-failures.
    Aggregate {
        /// The aggregate's own display message.
        message: Vec<u8>,
        /// The sub-failures, in collection order.
        children: Vec<ErrorTree>,
    },
}

/// The mathematical shape of an [`ErrorTree`]: the same two variants with
/// messages as byte sequences. Contracts speak of this shape.
#[verifier::ext_equal]
pub enum TreeView {
    /// Shape of [`ErrorTree::Chain`].
    Chain {
        /// The failure's display message.
        message: Seq<u8>,
        /// The underlying cause, if any.
        cause: Option<Box<TreeView>>,
    },
    /// Shape of [`ErrorTree::Aggregate`].
    Aggregate {
        /// The aggregate's own display message.
        message: Seq<u8>,
        /// The sub-failures, in collection order.
        children: Seq<TreeView>,
    },
}

/// The shape of one tree.
pub open spec fn tree_view(t: ErrorTree) -> TreeView
    decreases t, 0int,
{
    match t {
        ErrorTree::Chain { message, cause } => TreeView::Chain {
            message: message@,
            cause: match cause {
                Option::Some(b) => Option::Some(Box::new(tree_view(*b))),
                Option::None => Option::None,
            },
        },
        ErrorTree::Aggregate { message, children } => TreeView::Aggregate {
            message: message@,
            children: trees_view(children@),
        },
    }
}

/// The shapes of a list of trees, in order.
pub open spec fn trees_view(ts: Seq<ErrorTree>) -> Seq<TreeView>
    decreases ts, 1int,
{
    if ts.len() == 0 {
        Seq::empty()
    } else {
        seq![tree_view(ts[0])] + trees_view(ts.subrange(1, ts.len() as int))
    }
}

impl View for ErrorTree {
    type V = TreeView;

    open spec fn view(&self) -> TreeView {
        tree_view(*self)
    }
}

/// The display message of a tree's top node.
pub open spec fn message_of(t: TreeView) -> Seq<u8> {
    match t {
        TreeView::Chain { message, cause } => message,
        TreeView::Aggregate { message, children } => message,
    }
}

impl ErrorTree {
    /// The display message of the tree's top node.
    pub fn message(&self) -> (m: &Vec<u8>)
        ensures
            m@ == message_of(self@),
    {
        match self {
            ErrorTree::Chain { message, cause } => message,
            ErrorTree::Aggregate { message, children } => message,
        }
    }
}

/// Copies a tree; the copy has the same shape.
pub fn clone_tree(t: &ErrorTree) -> (r: ErrorTree)
    ensures
        r@ == t@,
    decreases *t,
{
    match t {
        ErrorTree::Chain { message, cause } => {
            let copied_cause = match cause {
                Option::Some(c) => Option::Some(Box::new(clone_tree(&**c))),
                Option::None => Option::None,
            };
            ErrorTree::Chain { message: vstd::slice::slice_to_vec(message.as_slice()), cause: copied_cause }
        },
        ErrorTree::Aggregate { message, children } => {
            let mut copied: Vec<ErrorTree> = Vec::new();
            let mut i: usize = 0;
            while i < children.len()
                invariant
                    i <= children@.len(),
                    *t is Aggregate,
                    t->Aggregate_children == *children,
                    copied@.len() == i,
                    forall|k: int|
                        0 <= k < i ==> tree_view(#[trigger] copied@[k]) == tree_view(children@[k]),
                decreases children@.len() - i,
            {
                proof {
                    vstd::std_specs::vec::axiom_vec_index_decreases::<ErrorTree>(
                        *children,
                        i as int,
                    );
                    assert(decreases_to!(*t => t->Aggregate_children));
                }
                let c = clone_tree(&children[i]);
                copied.push(c);
                i = i + 1;
            }
            let r = ErrorTree::Aggregate {
                message: vstd::slice::slice_to_vec(message.as_slice()),
                children: copied,
            };
            proof {
                lemma_trees_view_index(children@);
                lemma_trees_view_index(r->Aggregate_children@);
                assert(trees_view(r->Aggregate_children@) =~= trees_view(children@));
                assert(tree_view(r) =~~= tree_view(*t));
            }
            r
        },
    }
}

/// The shapes of a list of trees are the trees' shapes, position by
/// position.
pub proof fn lemma_trees_view_index(ts: Seq<ErrorTree>)
    ensures
        trees_view(ts).len() == ts.len(),
        forall|i: int| 0 <= i < ts.len() ==> trees_view(ts)[i] == tree_view(ts[i]),
    decreases ts.len(),
{
    if ts.len() > 0 {
        let rest = ts.subrange(1, ts.len() as int);
        lemma_trees_view_index(rest);
        assert forall|i: int| 0 <= i < ts.len() implies trees_view(ts)[i] == tree_view(ts[i]) by {
            if i > 0 {
                assert(rest[i - 1] == ts[i]);
                assert(trees_view(ts)[i] == trees_view(rest)[i - 1]);
            }
        }
    }
}

} // verus!
