use vstd::prelude::*;
use crate::bytes::append_bytes;
use crate::err_vec::encountered_errors_bytes;
use crate::err_vec::encountered_errors_message;
use crate::errgonomic::Errgonomic;
use crate::error_tree::ErrorTree;
use crate::error_tree::TreeView;
use crate::error_tree::lemma_trees_view_index;
use crate::error_tree::tree_view;
use crate::error_tree::trees_view;
use crate::prefixer::NEWLINE;
use crate::writeln_error::star_bullet;
use crate::writeln_error::star_bullet_bytes;

verus! {

/// One causal chain written line by line, each line carrying `prefix`: the
/// node's message after the prefix, then the cause's lines. A node that
/// collects several failures ends the chain; its own display already
/// carries its children as bulleted chains, every line of a child bearing
/// the bullet prefix.
pub open spec fn chain_formatted(t: TreeView, prefix: Seq<u8>) -> Seq<u8>
    decreases t, 0int,
{
    match t {
        TreeView::Chain { message, cause } => match cause {
            Option::Some(c) => prefix + message + seq![NEWLINE] + chain_formatted(*c, prefix),
            Option::None => prefix + message,
        },
        TreeView::Aggregate { message, children } => prefix + message + chains_formatted(children),
    }
}

/// The collected failures' chains, each on a fresh line, every line
/// bearing the bullet prefix.
pub open spec fn chains_formatted(ts: Seq<TreeView>) -> Seq<u8>
    decreases ts, 1int,
{
    if ts.len() == 0 {
        Seq::empty()
    } else {
        seq![NEWLINE] + chain_formatted(ts[0], star_bullet()) + chains_formatted(
            ts.subrange(1, ts.len() as int),
        )
    }
}

/// Appending one more failure appends one more bulleted chain.
pub proof fn lemma_chains_formatted_snoc(ts: Seq<TreeView>, x: TreeView)
    ensures
        chains_formatted(ts.push(x)) == chains_formatted(ts) + seq![NEWLINE] + chain_formatted(
            x,
            star_bullet(),
        ),
    decreases ts.len(),
{
    let tail = seq![NEWLINE] + chain_formatted(x, star_bullet());
    if ts.len() == 0 {
        assert(ts.push(x)[0] == x);
        assert(ts.push(x).subrange(1, 1) =~= Seq::<TreeView>::empty());
        assert(chains_formatted(ts.push(x)) == seq![NEWLINE] + chain_formatted(
            ts.push(x)[0],
            star_bullet(),
        ) + chains_formatted(ts.push(x).subrange(1, 1)));
        assert(chains_formatted(ts.push(x)) =~= chains_formatted(ts) + seq![NEWLINE]
            + chain_formatted(x, star_bullet()));
    } else {
        let rest = ts.subrange(1, ts.len() as int);
        lemma_chains_formatted_snoc(rest, x);
        assert(ts.push(x)[0] == ts[0]);
        assert(ts.push(x).subrange(1, ts.len() as int + 1) =~= rest.push(x));
        assert(chains_formatted(ts.push(x)) =~= chains_formatted(ts) + seq![NEWLINE]
            + chain_formatted(x, star_bullet()));
    }
}

/// Appends `error`'s causal chain to `writer`, every line carrying
/// `prefix`.
pub fn write_error_chain(writer: &mut Vec<u8>, error: &ErrorTree, prefix: &[u8])
    ensures
        final(writer)@ == old(writer)@ + chain_formatted(error@, prefix@),
    decreases *error,
{
    let ghost orig_out: Seq<u8> = writer@;
    match error {
        ErrorTree::Chain { message, cause } => {
            append_bytes(writer, prefix);
            append_bytes(writer, message.as_slice());
            match cause {
                Option::Some(c) => {
                    writer.push(NEWLINE);
                    write_error_chain(writer, &**c, prefix);
                    proof {
                        assert(writer@ =~= orig_out + chain_formatted(error@, prefix@));
                    }
                },
                Option::None => {
                    proof {
                        assert(writer@ =~= orig_out + chain_formatted(error@, prefix@));
                    }
                },
            }
        },
        ErrorTree::Aggregate { message, children } => {
            append_bytes(writer, prefix);
            append_bytes(writer, message.as_slice());
            let ghost cviews: Seq<TreeView> = trees_view(children@);
            let ghost head: Seq<u8> = prefix@ + message@;
            proof {
                lemma_trees_view_index(children@);
                assert(cviews.subrange(0, 0) =~= Seq::<TreeView>::empty());
                assert(writer@ =~= orig_out + head + chains_formatted(cviews.subrange(0, 0)));
            }
            let bullet = star_bullet_bytes();
            let mut i: usize = 0;
            while i < children.len()
                invariant
                    i <= children@.len(),
                    *error is Aggregate,
                    error->Aggregate_children == *children,
                    bullet@ == star_bullet(),
                    cviews == trees_view(children@),
                    cviews.len() == children@.len(),
                    forall|k: int| 0 <= k < children@.len() ==> cviews[k] == tree_view(children@[k]),
                    writer@ == orig_out + head + chains_formatted(cviews.subrange(0, i as int)),
                decreases children@.len() - i,
            {
                writer.push(NEWLINE);
                let ghost done: Seq<u8> = chains_formatted(cviews.subrange(0, i as int));
                proof {
                    vstd::std_specs::vec::axiom_vec_index_decreases::<ErrorTree>(
                        *children,
                        i as int,
                    );
                    assert(decreases_to!(*error => error->Aggregate_children));
                }
                let child = &children[i];
                write_error_chain(writer, child, bullet.as_slice());
                proof {
                    lemma_chains_formatted_snoc(cviews.subrange(0, i as int), cviews[i as int]);
                    assert(cviews.subrange(0, i + 1) =~= cviews.subrange(0, i as int).push(
                        cviews[i as int],
                    ));
                    assert(writer@ =~= orig_out + head + chains_formatted(
                        cviews.subrange(0, i + 1),
                    ));
                }
                i = i + 1;
            }
            proof {
                assert(cviews.subrange(0, cviews.len() as int) =~= cviews);
                assert(writer@ =~= orig_out + chain_formatted(error@, prefix@));
            }
        },
    }
}

/// Renders `error`'s causal chain as text, every line carrying `prefix`.
pub fn format_error_chain<E: Errgonomic>(error: &E, prefix: &[u8]) -> (r: Vec<u8>)
    ensures
        r@ == chain_formatted(error.tree_spec(), prefix@),
{
    let tree = error.to_error_tree();
    let mut output: Vec<u8> = Vec::new();
    write_error_chain(&mut output, &tree, prefix);
    output
}

/// A collection of failures displayed as one failure: its message counts
/// them, and each collected failure's chain follows as a bulleted line
/// group.
pub struct ErrVecDisplay<T> {
    /// The collected failures, in collection order.
    pub inner: Vec<T>,
}

impl<T: Errgonomic> Errgonomic for ErrVecDisplay<T> {
    open spec fn tree_spec(&self) -> TreeView {
        TreeView::Aggregate {
            message: encountered_errors_message(self.inner@.len()),
            children: Seq::new(self.inner@.len(), |i: int| self.inner@[i].tree_spec()),
        }
    }

    fn to_error_tree(&self) -> (t: ErrorTree) {
        let message = encountered_errors_bytes(self.inner.len());
        let mut children: Vec<ErrorTree> = Vec::new();
        let mut i: usize = 0;
        while i < self.inner.len()
            invariant
                i <= self.inner@.len(),
                children@.len() == i,
                forall|k: int|
                    0 <= k < i ==> tree_view(#[trigger] children@[k]) == self.inner@[k].tree_spec(),
            decreases self.inner@.len() - i,
        {
            let e = &self.inner[i];
            children.push(e.to_error_tree());
            i = i + 1;
        }
        let t = ErrorTree::Aggregate { message, children };
        proof {
            lemma_trees_view_index(t->Aggregate_children@);
            assert(trees_view(t->Aggregate_children@) =~= Seq::new(
                self.inner@.len(),
                |i: int| self.inner@[i].tree_spec(),
            ));
            assert(tree_view(t) =~~= self.tree_spec());
        }
        t
    }
}

impl<T: Errgonomic> ErrVecDisplay<T> {
    /// Appends the collection's display text: its message, then each
    /// collected failure's chain as a bulleted line group.
    pub fn fmt(&self, out: &mut Vec<u8>)
        ensures
            final(out)@ == old(out)@ + chain_formatted(self.tree_spec(), Seq::<u8>::empty()),
    {
        let tree = self.to_error_tree();
        let empty_prefix: Vec<u8> = Vec::new();
        write_error_chain(out, &tree, empty_prefix.as_slice());
    }
}

/// A sample failure wrapping [`BarError`].
pub enum FooError {
    /// The wrapped step failed.
    BarFailed {
        /// The underlying failure.
        source: BarError,
    },
}

/// A sample failure wrapping a collection of [`ZedError`]s.
pub enum BarError {
    /// The collected steps failed.
    ZedsFailed {
        /// The collected underlying failures.
        source: ErrVecDisplay<ZedError>,
    },
}

/// A sample leaf failure.
pub enum ZedError {
    /// The first kind of leaf failure.
    KsaFailed,
    /// The second kind of leaf failure.
    PryFailed,
}

/// The message of [`FooError::BarFailed`]: `bar failed`.
pub open spec fn bar_failed_message() -> Seq<u8> {
    seq![98u8, 97, 114, 32, 102, 97, 105, 108, 101, 100]
}

/// The message of [`BarError::ZedsFailed`]: `zeds failed`.
pub open spec fn zeds_failed_message() -> Seq<u8> {
    seq![122u8, 101, 100, 115, 32, 102, 97, 105, 108, 101, 100]
}

/// The message of [`ZedError::KsaFailed`]: `ksa failed`.
pub open spec fn ksa_failed_message() -> Seq<u8> {
    seq![107u8, 115, 97, 32, 102, 97, 105, 108, 101, 100]
}

/// The message of [`ZedError::PryFailed`]: `pry failed`.
pub open spec fn pry_failed_message() -> Seq<u8> {
    seq![112u8, 114, 121, 32, 102, 97, 105, 108, 101, 100]
}

/// Builds `bar failed`.
fn bar_failed_bytes() -> (v: Vec<u8>)
    ensures
        v@ == bar_failed_message(),
{
    let mut v: Vec<u8> = Vec::new();
    v.push(98);
    v.push(97);
    v.push(114);
    v.push(32);
    v.push(102);
    v.push(97);
    v.push(105);
    v.push(108);
    v.push(101);
    v.push(100);
    proof {
        assert(v@ =~= bar_failed_message());
    }
    v
}

/// Builds `zeds failed`.
fn zeds_failed_bytes() -> (v: Vec<u8>)
    ensures
        v@ == zeds_failed_message(),
{
    let mut v: Vec<u8> = Vec::new();
    v.push(122);
    v.push(101);
    v.push(100);
    v.push(115);
    v.push(32);
    v.push(102);
    v.push(97);
    v.push(105);
    v.push(108);
    v.push(101);
    v.push(100);
    proof {
        assert(v@ =~= zeds_failed_message());
    }
    v
}

/// Builds `ksa failed`.
fn ksa_failed_bytes() -> (v: Vec<u8>)
    ensures
        v@ == ksa_failed_message(),
{
    let mut v: Vec<u8> = Vec::new();
    v.push(107);
    v.push(115);
    v.push(97);
    v.push(32);
    v.push(102);
    v.push(97);
    v.push(105);
    v.push(108);
    v.push(101);
    v.push(100);
    proof {
        assert(v@ =~= ksa_failed_message());
    }
    v
}

/// Builds `pry failed`.
fn pry_failed_bytes() -> (v: Vec<u8>)
    ensures
        v@ == pry_failed_message(),
{
    let mut v: Vec<u8> = Vec::new();
    v.push(112);
    v.push(114);
    v.push(121);
    v.push(32);
    v.push(102);
    v.push(97);
    v.push(105);
    v.push(108);
    v.push(101);
    v.push(100);
    proof {
        assert(v@ =~= pry_failed_message());
    }
    v
}

impl Errgonomic for ZedError {
    open spec fn tree_spec(&self) -> TreeView {
        TreeView::Chain {
            message: match self {
                ZedError::KsaFailed => ksa_failed_message(),
                ZedError::PryFailed => pry_failed_message(),
            },
            cause: Option::None,
        }
    }

    fn to_error_tree(&self) -> (t: ErrorTree) {
        let message = match self {
            ZedError::KsaFailed => ksa_failed_bytes(),
            ZedError::PryFailed => pry_failed_bytes(),
        };
        ErrorTree::Chain { message, cause: Option::None }
    }
}

impl Errgonomic for BarError {
    open spec fn tree_spec(&self) -> TreeView {
        match self {
            BarError::ZedsFailed { source } => TreeView::Chain {
                message: zeds_failed_message(),
                cause: Option::Some(Box::new(source.tree_spec())),
            },
        }
    }

    fn to_error_tree(&self) -> (t: ErrorTree) {
        match self {
            BarError::ZedsFailed { source } => ErrorTree::Chain {
                message: zeds_failed_bytes(),
                cause: Option::Some(Box::new(source.to_error_tree())),
            },
        }
    }
}

impl Errgonomic for FooError {
    open spec fn tree_spec(&self) -> TreeView {
        match self {
            FooError::BarFailed { source } => TreeView::Chain {
                message: bar_failed_message(),
                cause: Option::Some(Box::new(source.tree_spec())),
            },
        }
    }

    fn to_error_tree(&self) -> (t: ErrorTree) {
        match self {
            FooError::BarFailed { source } => ErrorTree::Chain {
                message: bar_failed_bytes(),
                cause: Option::Some(Box::new(source.to_error_tree())),
            },
        }
    }
}

} // verus!
