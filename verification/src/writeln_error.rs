use vstd::prelude::*;
use crate::bytes::append_bytes;
use crate::error_tree::ErrorTree;
use crate::error_tree::TreeView;
use crate::error_tree::lemma_trees_view_index;
use crate::error_tree::tree_view;
use crate::error_tree::trees_view;
use crate::prefixer::NEWLINE;
use crate::prefixer::PrefixState;
use crate::prefixer::Prefixer;
use crate::prefixer::feed;
use crate::prefixer::fresh_state;
use crate::prefixer::lemma_feed_concat;
use crate::prefixer::prefixed;

verus! {

/// The blank byte used in indentation prefixes.
pub const SPACE: u8 = 32;

/// The bullet marker byte.
pub const STAR: u8 = 42;

/// First-line prefix of an aggregate child's block: a bullet.
pub open spec fn star_bullet() -> Seq<u8> {
    seq![SPACE, SPACE, STAR, SPACE]
}

/// Prefix of an aggregate child's later lines: blank continuation, so that
/// nested bullets stay distinguishable from wrapped text.
pub open spec fn continuation() -> Seq<u8> {
    seq![SPACE, SPACE, SPACE, SPACE]
}

/// The trace of a failure, with the given child-block prefixes: the node's
/// message as one line; for a chain link the cause's trace follows on the
/// same level, and for an aggregate each child's trace follows as one
/// prefixed block.
pub open spec fn rendered_with(t: TreeView, bullet: Seq<u8>, cont: Seq<u8>) -> Seq<u8>
    decreases t, 0int,
{
    match t {
        TreeView::Chain { message, cause } => message + seq![NEWLINE] + match cause {
            Option::Some(c) => rendered_with(*c, bullet, cont),
            Option::None => Seq::empty(),
        },
        TreeView::Aggregate { message, children } => message + seq![NEWLINE] + rendered_blocks(
            children,
            bullet,
            cont,
        ),
    }
}

/// The children's traces in order, each sent through a fresh prefixing
/// stream: first line bulleted, later lines continuation-indented.
pub open spec fn rendered_blocks(ts: Seq<TreeView>, bullet: Seq<u8>, cont: Seq<u8>) -> Seq<u8>
    decreases ts, 1int,
{
    if ts.len() == 0 {
        Seq::empty()
    } else {
        prefixed(rendered_with(ts[0], bullet, cont), bullet, cont) + rendered_blocks(
            ts.subrange(1, ts.len() as int),
            bullet,
            cont,
        )
    }
}

/// The trace with the standard bullet and continuation prefixes.
pub open spec fn rendered(t: TreeView) -> Seq<u8> {
    rendered_with(t, star_bullet(), continuation())
}

/// The states of a stack of prefixing streams, outermost first.
pub open spec fn stack_views(ps: Seq<Prefixer>) -> Seq<PrefixState> {
    Seq::new(ps.len(), |i: int| ps[i]@)
}

/// Text through a stack of prefixing streams: the innermost (last) stream
/// takes the text first, its output goes through the next stream, and so
/// on; what leaves the outermost stream is the stack's output.
pub open spec fn stack_feed(ps: Seq<PrefixState>, s: Seq<u8>) -> (Seq<PrefixState>, Seq<u8>)
    decreases ps.len(),
{
    if ps.len() == 0 {
        (ps, s)
    } else {
        let inner = feed(ps.last(), s);
        let rest = stack_feed(ps.drop_last(), inner.1);
        (rest.0.push(inner.0), rest.1)
    }
}

/// Chunk-invariance, lifted to a stack of streams: feeding a concatenation
/// equals feeding its parts one after the other.
pub proof fn lemma_stack_feed_concat(ps: Seq<PrefixState>, a: Seq<u8>, b: Seq<u8>)
    ensures
        stack_feed(ps, a + b).0 == stack_feed(stack_feed(ps, a).0, b).0,
        stack_feed(ps, a + b).1 == stack_feed(ps, a).1 + stack_feed(stack_feed(ps, a).0, b).1,
        stack_feed(ps, a).0.len() == ps.len(),
    decreases ps.len(),
{
    if ps.len() == 0 {
    } else {
        let ia = feed(ps.last(), a);
        let ib = feed(ia.0, b);
        lemma_feed_concat(ps.last(), a, b);
        lemma_stack_feed_concat(ps.drop_last(), ia.1, ib.1);
        let ra = stack_feed(ps.drop_last(), ia.1);
        assert(stack_feed(ps, a).0.drop_last() =~= ra.0);
        assert(stack_feed(ps, a).0.last() == ia.0);
        assert(stack_feed(ps, a).0.len() != 0);
    }
}

/// Through the empty stack, text passes unchanged.
pub proof fn lemma_stack_feed_empty_stack(s: Seq<u8>)
    ensures
        stack_feed(Seq::<PrefixState>::empty(), s) == (Seq::<PrefixState>::empty(), s),
{
}

/// Writes `buf` through the innermost `j` streams of the stack into `out`.
fn write_upto(stack: &mut Vec<Prefixer>, j: usize, buf: &[u8], out: &mut Vec<u8>)
    requires
        j <= old(stack)@.len(),
    ensures
        final(stack)@.len() == old(stack)@.len(),
        forall|k: int|
            j <= k < old(stack)@.len() ==> final(stack)@[k] == old(stack)@[k],
        stack_views(final(stack)@).subrange(0, j as int) == stack_feed(
            stack_views(old(stack)@).subrange(0, j as int),
            buf@,
        ).0,
        final(out)@ == old(out)@ + stack_feed(
            stack_views(old(stack)@).subrange(0, j as int),
            buf@,
        ).1,
    decreases j,
{
    if j == 0 {
        append_bytes(out, buf);
        proof {
            assert(stack_views(stack@).subrange(0, 0) =~= Seq::<PrefixState>::empty());
            assert(stack_views(old(stack)@).subrange(0, 0) =~= Seq::<PrefixState>::empty());
        }
    } else {
        let ghost orig: Seq<Prefixer> = stack@;
        let mut tmp: Vec<u8> = Vec::new();
        let pref = &mut stack[j - 1];
        pref.write(buf, &mut tmp);
        proof {
            assert(stack@ =~= orig.update(j - 1, stack@[j - 1 as int]));
            assert(stack@[j - 1 as int]@ == feed(orig[j - 1 as int]@, buf@).0);
            assert(tmp@ == feed(orig[j - 1 as int]@, buf@).1);
        }
        let ghost mid: Seq<Prefixer> = stack@;
        write_upto(stack, j - 1, tmp.as_slice(), out);
        proof {
            let vs = stack_views(orig).subrange(0, j as int);
            let inner = feed(vs.last(), buf@);
            assert(vs.last() == orig[j - 1 as int]@);
            assert(vs.drop_last() =~= stack_views(mid).subrange(0, j - 1 as int));
            assert(inner.1 == tmp@);
            let rest = stack_feed(vs.drop_last(), tmp@);
            assert(stack_feed(vs, buf@).0 == rest.0.push(inner.0));
            assert(stack_views(stack@).subrange(0, j - 1 as int) == rest.0);
            assert(stack_views(stack@).subrange(0, j as int) =~= rest.0.push(inner.0));
        }
    }
}

/// Appending one more child to a list appends its prefixed block to the
/// rendered blocks.
pub proof fn lemma_rendered_blocks_snoc(
    ts: Seq<TreeView>,
    x: TreeView,
    bullet: Seq<u8>,
    cont: Seq<u8>,
)
    ensures
        rendered_blocks(ts.push(x), bullet, cont) == rendered_blocks(ts, bullet, cont) + prefixed(
            rendered_with(x, bullet, cont),
            bullet,
            cont,
        ),
    decreases ts.len(),
{
    let block = prefixed(rendered_with(x, bullet, cont), bullet, cont);
    if ts.len() == 0 {
        assert(ts.push(x)[0] == x);
        assert(ts.push(x).subrange(1, 1) =~= Seq::<TreeView>::empty());
        assert(rendered_blocks(ts.push(x), bullet, cont) == prefixed(
            rendered_with(ts.push(x)[0], bullet, cont),
            bullet,
            cont,
        ) + rendered_blocks(ts.push(x).subrange(1, 1), bullet, cont));
        assert(rendered_blocks(Seq::<TreeView>::empty(), bullet, cont) == Seq::<u8>::empty());
        assert(rendered_blocks(ts.push(x), bullet, cont) =~= rendered_blocks(ts, bullet, cont)
            + block);
    } else {
        let rest = ts.subrange(1, ts.len() as int);
        lemma_rendered_blocks_snoc(rest, x, bullet, cont);
        assert(ts.push(x)[0] == ts[0]);
        assert(ts.push(x).subrange(1, ts.len() as int + 1) =~= rest.push(x));
        assert(rendered_blocks(ts.push(x), bullet, cont) =~= rendered_blocks(ts, bullet, cont)
            + block);
    }
}

/// Writes `buf` through the whole stack of prefixing streams into `out`.
fn write_through(stack: &mut Vec<Prefixer>, buf: &[u8], out: &mut Vec<u8>)
    ensures
        final(stack)@.len() == old(stack)@.len(),
        stack_views(final(stack)@) == stack_feed(stack_views(old(stack)@), buf@).0,
        final(out)@ == old(out)@ + stack_feed(stack_views(old(stack)@), buf@).1,
{
    let j = stack.len();
    write_upto(stack, j, buf, out);
    proof {
        assert(stack_views(old(stack)@).subrange(0, old(stack)@.len() as int) =~= stack_views(
            old(stack)@,
        ));
        assert(stack_views(stack@).subrange(0, stack@.len() as int) =~= stack_views(stack@));
    }
}

/// Writes one message line (the message, then a newline) through the stack.
fn write_message_line(stack: &mut Vec<Prefixer>, message: &Vec<u8>, out: &mut Vec<u8>)
    ensures
        final(stack)@.len() == old(stack)@.len(),
        stack_views(final(stack)@) == stack_feed(
            stack_views(old(stack)@),
            message@ + seq![NEWLINE],
        ).0,
        final(out)@ == old(out)@ + stack_feed(
            stack_views(old(stack)@),
            message@ + seq![NEWLINE],
        ).1,
{
    let mut line: Vec<u8> = Vec::new();
    append_bytes(&mut line, message.as_slice());
    line.push(NEWLINE);
    proof {
        assert(line@ =~= message@ + seq![NEWLINE]);
    }
    write_through(stack, line.as_slice(), out);
}

/// Renders `error` through the current stack of prefixing streams into
/// `out`: the message line first; a cause's lines follow on the same
/// level; each aggregate child streams through one more prefixing layer,
/// opened fresh for that child and closed after it.
pub(crate) fn render_node(
    error: &ErrorTree,
    bullet: &[u8],
    cont: &[u8],
    stack: &mut Vec<Prefixer>,
    out: &mut Vec<u8>,
)
    ensures
        final(stack)@.len() == old(stack)@.len(),
        stack_views(final(stack)@) == stack_feed(
            stack_views(old(stack)@),
            rendered_with(error@, bullet@, cont@),
        ).0,
        final(out)@ == old(out)@ + stack_feed(
            stack_views(old(stack)@),
            rendered_with(error@, bullet@, cont@),
        ).1,
    decreases *error,
{
    let ghost orig_views: Seq<PrefixState> = stack_views(stack@);
    let ghost orig_out: Seq<u8> = out@;
    match error {
        ErrorTree::Chain { message, cause } => {
            let ghost header: Seq<u8> = message@ + seq![NEWLINE];
            write_message_line(stack, message, out);
            match cause {
                Option::Some(c) => {
                    render_node(&**c, bullet, cont, stack, out);
                    proof {
                        let tail = rendered_with(tree_view(**c), bullet@, cont@);
                        lemma_stack_feed_concat(orig_views, header, tail);
                        assert(rendered_with(error@, bullet@, cont@) =~= header + tail);
                        assert(out@ =~= orig_out + stack_feed(orig_views, header + tail).1);
                    }
                },
                Option::None => {
                    proof {
                        assert(rendered_with(error@, bullet@, cont@) =~= header);
                    }
                },
            }
        },
        ErrorTree::Aggregate { message, children } => {
            let ghost header: Seq<u8> = message@ + seq![NEWLINE];
            let ghost cviews: Seq<TreeView> = trees_view(children@);
            write_message_line(stack, message, out);
            proof {
                lemma_trees_view_index(children@);
                assert(cviews.subrange(0, 0) =~= Seq::<TreeView>::empty());
                assert(header + rendered_blocks(cviews.subrange(0, 0), bullet@, cont@) =~= header);
            }
            let mut idx: usize = 0;
            while idx < children.len()
                invariant
                    idx <= children@.len(),
                    *error is Aggregate,
                    error->Aggregate_children == *children,
                    cviews == trees_view(children@),
                    cviews.len() == children@.len(),
                    forall|i: int| 0 <= i < children@.len() ==> cviews[i] == tree_view(children@[i]),
                    stack_views(stack@) == stack_feed(
                        orig_views,
                        header + rendered_blocks(cviews.subrange(0, idx as int), bullet@, cont@),
                    ).0,
                    stack@.len() == orig_views.len(),
                    out@ == orig_out + stack_feed(
                        orig_views,
                        header + rendered_blocks(cviews.subrange(0, idx as int), bullet@, cont@),
                    ).1,
                decreases children@.len() - idx,
            {
                let ghost done: Seq<u8> = header + rendered_blocks(
                    cviews.subrange(0, idx as int),
                    bullet@,
                    cont@,
                );
                let ghost pre_views: Seq<PrefixState> = stack_views(stack@);
                let p = Prefixer::new(vstd::slice::slice_to_vec(bullet), vstd::slice::slice_to_vec(cont));
                stack.push(p);
                proof {
                    assert(stack_views(stack@) =~= pre_views.push(
                        fresh_state(bullet@, cont@),
                    ));
                }
                let child = &children[idx];
                proof {
                    vstd::std_specs::vec::axiom_vec_index_decreases::<ErrorTree>(
                        *children,
                        idx as int,
                    );
                    assert(decreases_to!(*error => error->Aggregate_children));
                    assert(error->Aggregate_children == *children);
                }
                render_node(child, bullet, cont, stack, out);
                let _popped = stack.pop();
                proof {
                    let r_child = rendered_with(cviews[idx as int], bullet@, cont@);
                    let pushed = pre_views.push(fresh_state(bullet@, cont@));
                    let inner = feed(fresh_state(bullet@, cont@), r_child);
                    assert(pushed.last() == fresh_state(bullet@, cont@));
                    assert(pushed.drop_last() =~= pre_views);
                    let rest = stack_feed(pre_views, inner.1);
                    assert(stack_feed(pushed, r_child).0 == rest.0.push(inner.0));
                    assert(stack_views(stack@) =~= rest.0.push(inner.0).drop_last());
                    assert(rest.0.push(inner.0).drop_last() =~= rest.0);
                    assert(inner.1 == prefixed(r_child, bullet@, cont@));
                    lemma_stack_feed_concat(orig_views, done, inner.1);
                    lemma_rendered_blocks_snoc(
                        cviews.subrange(0, idx as int),
                        cviews[idx as int],
                        bullet@,
                        cont@,
                    );
                    assert(cviews.subrange(0, idx + 1) =~= cviews.subrange(0, idx as int).push(
                        cviews[idx as int],
                    ));
                    assert(header + rendered_blocks(cviews.subrange(0, idx + 1), bullet@, cont@)
                        =~= done + inner.1);
                    assert(out@ =~= orig_out + stack_feed(orig_views, done + inner.1).1);
                }
                idx = idx + 1;
            }
            proof {
                assert(cviews.subrange(0, cviews.len() as int) =~= cviews);
                assert(rendered_with(error@, bullet@, cont@) =~= header + rendered_blocks(
                    cviews,
                    bullet@,
                    cont@,
                ));
            }
        },
    }
}

/// Builds the standard bullet prefix.
pub(crate) fn star_bullet_bytes() -> (v: Vec<u8>)
    ensures
        v@ == star_bullet(),
{
    let mut v: Vec<u8> = Vec::new();
    v.push(SPACE);
    v.push(SPACE);
    v.push(STAR);
    v.push(SPACE);
    proof {
        assert(v@ =~= star_bullet());
    }
    v
}

/// Builds the continuation prefix.
pub(crate) fn continuation_bytes() -> (v: Vec<u8>)
    ensures
        v@ == continuation(),
{
    let mut v: Vec<u8> = Vec::new();
    v.push(SPACE);
    v.push(SPACE);
    v.push(SPACE);
    v.push(SPACE);
    proof {
        assert(v@ =~= continuation());
    }
    v
}

/// The prefixing stream an aggregate child is rendered through: a bullet
/// on its first line, blank continuation on its later lines.
pub fn error_prefixer() -> (p: Prefixer)
    ensures
        p@ == fresh_state(star_bullet(), continuation()),
{
    Prefixer::new(star_bullet_bytes(), continuation_bytes())
}

/// Writes the trace of `error` to `writer`: one line per chain link, and
/// one bulleted, continuation-indented block per aggregate child, nesting
/// adding one prefix layer per level.
pub fn writeln_error_to_writer(error: &ErrorTree, writer: &mut Vec<u8>)
    ensures
        final(writer)@ == old(writer)@ + rendered(error@),
{
    let mut stack: Vec<Prefixer> = Vec::new();
    let bullet = star_bullet_bytes();
    let cont = continuation_bytes();
    proof {
        assert(stack_views(stack@) =~= Seq::<PrefixState>::empty());
    }
    render_node(error, bullet.as_slice(), cont.as_slice(), &mut stack, writer);
}

/// The fixed text that introduces the location of the persisted full
/// detail.
pub open spec fn see_full_report() -> Seq<u8> {
    seq![
        83u8, 101, 101, 32, 116, 104, 101, 32, 102, 117, 108, 108, 32, 101, 114, 114, 111, 114,
        32, 114, 101, 112, 111, 114, 116, 58, 10, 108, 101, 115, 115, 32,
    ]
}

/// What follows the trace and the blank line: a pointer to the persisted
/// full detail, or — where persisting failed — the persistence failure's
/// own text.
pub open spec fn report_tail(persisted: Result<Vec<u8>, Vec<u8>>) -> Seq<u8> {
    match persisted {
        Result::Ok(path) => see_full_report() + path@ + seq![NEWLINE],
        Result::Err(message) => message@ + seq![NEWLINE],
    }
}

/// Builds the fixed pointer text, byte for byte.
pub(crate) fn see_full_report_bytes() -> (v: Vec<u8>)
    ensures
        v@ == see_full_report(),
{
    let mut v: Vec<u8> = Vec::new();
    v.push(83);
    v.push(101);
    v.push(101);
    v.push(32);
    v.push(116);
    v.push(104);
    v.push(101);
    v.push(32);
    v.push(102);
    v.push(117);
    v.push(108);
    v.push(108);
    v.push(32);
    v.push(101);
    v.push(114);
    v.push(114);
    v.push(111);
    v.push(114);
    v.push(32);
    v.push(114);
    v.push(101);
    v.push(112);
    v.push(111);
    v.push(114);
    v.push(116);
    v.push(58);
    v.push(10);
    v.push(108);
    v.push(101);
    v.push(115);
    v.push(115);
    v.push(32);
    proof {
        assert(v@ =~= see_full_report());
    }
    v
}

/// Whether every node of the tree is a chain link: a linear causal chain.
pub open spec fn is_linear_chain(t: TreeView) -> bool
    decreases t,
{
    match t {
        TreeView::Chain { message, cause } => match cause {
            Option::Some(c) => is_linear_chain(*c),
            Option::None => true,
        },
        TreeView::Aggregate { message, children } => false,
    }
}

/// The depth of a causal chain: the number of its links.
pub open spec fn chain_depth(t: TreeView) -> nat
    decreases t,
{
    match t {
        TreeView::Chain { message, cause } => match cause {
            Option::Some(c) => 1 + chain_depth(*c),
            Option::None => 1,
        },
        TreeView::Aggregate { message, children } => 1,
    }
}

/// The messages along a causal chain, top cause first.
pub open spec fn chain_messages(t: TreeView) -> Seq<Seq<u8>>
    decreases t,
{
    match t {
        TreeView::Chain { message, cause } => seq![message] + (match cause {
            Option::Some(c) => chain_messages(*c),
            Option::None => Seq::empty(),
        }),
        TreeView::Aggregate { message, children } => seq![message],
    }
}

/// Each message as one line of its own: the message, then the terminator.
pub open spec fn joined_lines(ms: Seq<Seq<u8>>) -> Seq<u8>
    decreases ms.len(),
{
    if ms.len() == 0 {
        Seq::empty()
    } else {
        ms[0] + seq![NEWLINE] + joined_lines(ms.subrange(1, ms.len() as int))
    }
}

/// A linear chain of depth `n` renders as exactly its `n` messages, each
/// on a line of its own: the output holds nothing but the messages and
/// their terminators — no bullet, no indentation.
pub proof fn lemma_chain_rendering(t: TreeView, bullet: Seq<u8>, cont: Seq<u8>)
    requires
        is_linear_chain(t),
    ensures
        rendered_with(t, bullet, cont) == joined_lines(chain_messages(t)),
        chain_messages(t).len() == chain_depth(t),
    decreases t,
{
    match t {
        TreeView::Chain { message, cause } => match cause {
            Option::Some(c) => {
                lemma_chain_rendering(*c, bullet, cont);
                assert(chain_messages(t)[0] == message);
                assert(chain_messages(t).subrange(1, chain_messages(t).len() as int)
                    =~= chain_messages(*c));
                assert(rendered_with(t, bullet, cont) =~= joined_lines(chain_messages(t)));
            },
            Option::None => {
                assert(chain_messages(t) =~= seq![message]);
                assert(chain_messages(t).subrange(1, 1) =~= Seq::<Seq<u8>>::empty());
                assert(joined_lines(Seq::<Seq<u8>>::empty()) == Seq::<u8>::empty());
                assert(joined_lines(chain_messages(t)) =~= message + seq![NEWLINE]);
                assert(rendered_with(t, bullet, cont) =~= joined_lines(chain_messages(t)));
            },
        },
        TreeView::Aggregate { message, children } => {},
    }
}

/// The children's blocks, in order: child `i`'s trace through one fresh
/// prefixing stream.
pub open spec fn child_blocks(ts: Seq<TreeView>, bullet: Seq<u8>, cont: Seq<u8>) -> Seq<Seq<u8>> {
    Seq::new(ts.len(), |i: int| prefixed(rendered_with(ts[i], bullet, cont), bullet, cont))
}

/// The children's traces concatenate to their blocks, one per child, in
/// the children's order.
pub proof fn lemma_rendered_blocks_are_child_blocks(ts: Seq<TreeView>, bullet: Seq<u8>, cont: Seq<u8>)
    ensures
        rendered_blocks(ts, bullet, cont) == child_blocks(ts, bullet, cont).flatten(),
    decreases ts.len(),
{
    if ts.len() == 0 {
        assert(child_blocks(ts, bullet, cont) =~= Seq::<Seq<u8>>::empty());
        assert(rendered_blocks(ts, bullet, cont) =~= child_blocks(ts, bullet, cont).flatten());
    } else {
        let rest = ts.subrange(1, ts.len() as int);
        lemma_rendered_blocks_are_child_blocks(rest, bullet, cont);
        let blocks = child_blocks(ts, bullet, cont);
        assert(blocks.first() == prefixed(rendered_with(ts[0], bullet, cont), bullet, cont));
        assert(blocks.drop_first() =~= child_blocks(rest, bullet, cont));
        assert(rendered_blocks(ts, bullet, cont) =~= blocks.flatten());
    }
}

/// An aggregate with `k` children renders as its message line followed by
/// exactly `k` blocks, in the children's order: block `i` is child `i`'s
/// trace through one fresh prefixing stream, so its first line carries the
/// bullet prefix and its later lines the continuation prefix.
pub proof fn lemma_aggregate_rendering(
    message: Seq<u8>,
    children: Seq<TreeView>,
    bullet: Seq<u8>,
    cont: Seq<u8>,
)
    ensures
        rendered_with(TreeView::Aggregate { message, children }, bullet, cont) == message
            + seq![NEWLINE] + child_blocks(children, bullet, cont).flatten(),
        child_blocks(children, bullet, cont).len() == children.len(),
{
    lemma_rendered_blocks_are_child_blocks(children, bullet, cont);
}

/// Nesting is additive: an aggregate child inside an aggregate renders
/// inside one prefixing layer of the parent, which wraps the child's whole
/// trace — its message line and its own children's already-prefixed
/// blocks.
pub proof fn lemma_nesting_additive(
    parent_message: Seq<u8>,
    child_message: Seq<u8>,
    grandchildren: Seq<TreeView>,
    bullet: Seq<u8>,
    cont: Seq<u8>,
)
    ensures
        rendered_with(
            TreeView::Aggregate {
                message: parent_message,
                children: seq![
                    TreeView::Aggregate { message: child_message, children: grandchildren },
                ],
            },
            bullet,
            cont,
        ) == parent_message + seq![NEWLINE] + prefixed(
            child_message + seq![NEWLINE] + rendered_blocks(grandchildren, bullet, cont),
            bullet,
            cont,
        ),
{
    let child = TreeView::Aggregate { message: child_message, children: grandchildren };
    let cs = seq![child];
    assert(cs[0] == child);
    assert(cs.subrange(1, 1) =~= Seq::<TreeView>::empty());
    assert(rendered_blocks(Seq::<TreeView>::empty(), bullet, cont) == Seq::<u8>::empty());
    assert(rendered_blocks(cs, bullet, cont) =~= prefixed(
        rendered_with(child, bullet, cont),
        bullet,
        cont,
    ));
    assert(rendered_with(TreeView::Aggregate { message: parent_message, children: cs }, bullet, cont)
        =~= parent_message + seq![NEWLINE] + prefixed(
        child_message + seq![NEWLINE] + rendered_blocks(grandchildren, bullet, cont),
        bullet,
        cont,
    ));
}

/// Removing a layer's prefixes from a child's block restores exactly the
/// single-layer trace of that subtree: a prefixing layer loses nothing.
pub proof fn lemma_layer_removal(t: TreeView, bullet: Seq<u8>, cont: Seq<u8>)
    ensures
        crate::prefixer::strip_prefixed(
            prefixed(rendered_with(t, bullet, cont), bullet, cont),
            bullet,
            cont,
        ) == rendered_with(t, bullet, cont),
{
    crate::prefixer::lemma_strip_prefixed(rendered_with(t, bullet, cont), bullet, cont);
}

/// Writes the full report for `error` to `writer`: the trace, a blank
/// line, then a pointer to where the full detail was persisted —
/// `persisted` carries the persistence collaborator's outcome, either the
/// location or the failure's text. A persistence failure degrades to
/// printing that failure; it never fails the report itself.
pub fn writeln_error_to_writer_and_file(
    error: &ErrorTree,
    writer: &mut Vec<u8>,
    persisted: Result<Vec<u8>, Vec<u8>>,
)
    ensures
        final(writer)@ == old(writer)@ + rendered(error@) + seq![NEWLINE] + report_tail(persisted),
{
    writeln_error_to_writer(error, writer);
    writer.push(NEWLINE);
    match persisted {
        Result::Ok(path_buf) => {
            let pointer = see_full_report_bytes();
            append_bytes(writer, pointer.as_slice());
            append_bytes(writer, path_buf.as_slice());
            writer.push(NEWLINE);
            proof {
                assert(writer@ =~= old(writer)@ + rendered(error@) + seq![NEWLINE] + (
                see_full_report() + path_buf@ + seq![NEWLINE]));
            }
        },
        Result::Err(message) => {
            append_bytes(writer, message.as_slice());
            writer.push(NEWLINE);
            proof {
                assert(writer@ =~= old(writer)@ + rendered(error@) + seq![NEWLINE] + (message@
                    + seq![NEWLINE]));
            }
        },
    }
}

} // verus!
