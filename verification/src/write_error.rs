use vstd::prelude::*;
use crate::bytes::append_bytes;
use crate::error_tree::ErrorTree;
use crate::error_tree::TreeView;
use crate::prefixer::NEWLINE;
use crate::prefixer::PrefixState;
use crate::prefixer::Prefixer;
use crate::prefixer::fresh_state;
use crate::writeln_error::SPACE;
use crate::writeln_error::continuation;
use crate::writeln_error::continuation_bytes;
use crate::writeln_error::render_node;
use crate::writeln_error::report_tail;
use crate::writeln_error::rendered_with;
use crate::writeln_error::see_full_report_bytes;
use crate::writeln_error::stack_views;

verus! {

/// The bullet marker byte of this variant.
pub const PLUS: u8 = 43;

/// First-line prefix of an aggregate child's block in this variant: a
/// plus-shaped bullet.
pub open spec fn plus_bullet() -> Seq<u8> {
    seq![SPACE, SPACE, PLUS, SPACE]
}

/// The trace with the plus-shaped bullet and the blank continuation.
pub open spec fn rendered_plus(t: TreeView) -> Seq<u8> {
    rendered_with(t, plus_bullet(), continuation())
}

/// Builds this variant's bullet prefix.
fn plus_bullet_bytes() -> (v: Vec<u8>)
    ensures
        v@ == plus_bullet(),
{
    let mut v: Vec<u8> = Vec::new();
    v.push(SPACE);
    v.push(SPACE);
    v.push(PLUS);
    v.push(SPACE);
    proof {
        assert(v@ =~= plus_bullet());
    }
    v
}

/// The prefixing stream this variant renders an aggregate child through: a
/// plus-shaped bullet on its first line, blank continuation on its later
/// lines.
pub fn error_prefixer() -> (p: Prefixer)
    ensures
        p@ == fresh_state(plus_bullet(), continuation()),
{
    Prefixer::new(plus_bullet_bytes(), continuation_bytes())
}

/// Writes the trace of `error` to `writer`, marking each aggregate child's
/// block with a plus-shaped bullet.
pub fn writeln_error_only(error: &ErrorTree, writer: &mut Vec<u8>)
    ensures
        final(writer)@ == old(writer)@ + rendered_plus(error@),
{
    let mut stack: Vec<Prefixer> = Vec::new();
    let bullet = plus_bullet_bytes();
    let cont = continuation_bytes();
    proof {
        assert(stack_views(stack@) =~= Seq::<PrefixState>::empty());
    }
    render_node(error, bullet.as_slice(), cont.as_slice(), &mut stack, writer);
}

/// Writes the full report for `error` to `writer` in this variant's style:
/// the trace, a blank line, then a pointer to where the full detail was
/// persisted — `persisted` carries the persistence collaborator's outcome.
pub fn writeln_error(error: &ErrorTree, writer: &mut Vec<u8>, persisted: Result<Vec<u8>, Vec<u8>>)
    ensures
        final(writer)@ == old(writer)@ + rendered_plus(error@) + seq![NEWLINE] + report_tail(
            persisted,
        ),
{
    writeln_error_only(error, writer);
    writer.push(NEWLINE);
    match persisted {
        Result::Ok(path_buf) => {
            let pointer = see_full_report_bytes();
            append_bytes(writer, pointer.as_slice());
            append_bytes(writer, path_buf.as_slice());
            writer.push(NEWLINE);
            proof {
                assert(writer@ =~= old(writer)@ + rendered_plus(error@) + seq![NEWLINE] + (
                crate::writeln_error::see_full_report() + path_buf@ + seq![NEWLINE]));
            }
        },
        Result::Err(message) => {
            append_bytes(writer, message.as_slice());
            writer.push(NEWLINE);
            proof {
                assert(writer@ =~= old(writer)@ + rendered_plus(error@) + seq![NEWLINE] + (
                message@ + seq![NEWLINE]));
            }
        },
    }
}

} // verus!
