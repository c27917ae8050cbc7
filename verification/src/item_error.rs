use vstd::prelude::*;
use crate::bytes::append_bytes;
use crate::errgonomic::DoDisplay;
use crate::errgonomic::Errgonomic;
use crate::error_tree::ErrorTree;
use crate::error_tree::TreeView;
use crate::error_tree::message_of;

verus! {

/// The fixed text opening an item error's message:
/// `error occurred for item `.
pub open spec fn item_error_opening() -> Seq<u8> {
    seq![
        101u8, 114, 114, 111, 114, 32, 111, 99, 99, 117, 114, 114, 101, 100, 32, 102, 111, 114,
        32, 105, 116, 101, 109, 32,
    ]
}

/// The message of an [`ItemError`]: the opening, the item's display text,
/// `: `, and the source failure's own message.
pub open spec fn item_error_message(item: Seq<u8>, source_message: Seq<u8>) -> Seq<u8> {
    item_error_opening() + item + seq![58u8, 32] + source_message
}

/// Builds the fixed opening text.
fn item_error_opening_bytes() -> (v: Vec<u8>)
    ensures
        v@ == item_error_opening(),
{
    let mut v: Vec<u8> = Vec::new();
    v.push(101);
    v.push(114);
    v.push(114);
    v.push(111);
    v.push(114);
    v.push(32);
    v.push(111);
    v.push(99);
    v.push(99);
    v.push(117);
    v.push(114);
    v.push(114);
    v.push(101);
    v.push(100);
    v.push(32);
    v.push(102);
    v.push(111);
    v.push(114);
    v.push(32);
    v.push(105);
    v.push(116);
    v.push(101);
    v.push(109);
    v.push(32);
    proof {
        assert(v@ =~= item_error_opening());
    }
    v
}

/// Associates an error with the item that caused it.
pub struct ItemError<T, E> {
    /// The item that produced the error.
    pub item: T,
    /// The error produced for the item.
    pub source: E,
}

impl<T: DoDisplay, E: Errgonomic> Errgonomic for ItemError<T, E> {
    open spec fn tree_spec(&self) -> TreeView {
        TreeView::Chain {
            message: item_error_message(
                self.item.display_spec(),
                message_of(self.source.tree_spec()),
            ),
            cause: Option::Some(Box::new(self.source.tree_spec())),
        }
    }

    fn to_error_tree(&self) -> (t: ErrorTree) {
        let source_tree = self.source.to_error_tree();
        let mut message = item_error_opening_bytes();
        let item_text = self.item.do_display();
        append_bytes(&mut message, item_text.as_slice());
        message.push(58);
        message.push(32);
        append_bytes(&mut message, source_tree.message().as_slice());
        proof {
            assert(message@ =~= item_error_message(
                self.item.display_spec(),
                message_of(self.source.tree_spec()),
            ));
        }
        let t = ErrorTree::Chain { message, cause: Option::Some(Box::new(source_tree)) };
        proof {
            assert(t@ =~~= self.tree_spec());
        }
        t
    }
}

} // verus!
