use vstd::prelude::*;
use crate::bytes::append_bytes;

verus! {

/// The byte that ends a line.
pub const NEWLINE: u8 = 10;

/// The state a [`Prefixer`] carries between writes: its two prefixes,
/// whether the next content still belongs to the very first line, and
/// whether the next content starts a line that has not been prefixed yet.
#[verifier::ext_equal]
pub struct PrefixState {
    /// Prefix inserted before the first line.
    pub first_line_prefix: Seq<u8>,
    /// Prefix inserted before every later line.
    pub next_line_prefix: Seq<u8>,
    /// Whether the next content is still on the first line.
    pub is_first_line: bool,
    /// Whether the next content starts a not-yet-prefixed line.
    pub needs_prefix: bool,
}

/// A fresh state with the given prefixes: the first line is still ahead
/// and still unprefixed.
pub open spec fn fresh_state(first: Seq<u8>, next: Seq<u8>) -> PrefixState {
    PrefixState {
        first_line_prefix: first,
        next_line_prefix: next,
        is_first_line: true,
        needs_prefix: true,
    }
}

/// One byte through the stream: if the byte starts a not-yet-prefixed
/// line, the line's prefix is emitted immediately before it; a newline
/// makes the following content start a fresh line.
pub open spec fn feed_byte(p: PrefixState, b: u8) -> (PrefixState, Seq<u8>) {
    let emitted = if p.needs_prefix {
        (if p.is_first_line {
            p.first_line_prefix
        } else {
            p.next_line_prefix
        }) + seq![b]
    } else {
        seq![b]
    };
    let after = PrefixState {
        first_line_prefix: p.first_line_prefix,
        next_line_prefix: p.next_line_prefix,
        is_first_line: if p.needs_prefix {
            false
        } else {
            p.is_first_line
        },
        needs_prefix: b == NEWLINE,
    };
    (after, emitted)
}

/// A whole chunk through the stream, byte by byte: the state after the
/// chunk and everything emitted for it. Defined byte-wise, so how a text
/// is split into chunks cannot matter.
pub open spec fn feed(p: PrefixState, s: Seq<u8>) -> (PrefixState, Seq<u8>)
    decreases s.len(),
{
    if s.len() == 0 {
        (p, Seq::empty())
    } else {
        let first = feed_byte(p, s[0]);
        let rest = feed(first.0, s.subrange(1, s.len() as int));
        (rest.0, first.1 + rest.1)
    }
}

/// What a fresh stream with prefixes `first` and `next` emits for `s`.
pub open spec fn prefixed(s: Seq<u8>, first: Seq<u8>, next: Seq<u8>) -> Seq<u8> {
    feed(fresh_state(first, next), s).1
}

/// A write adapter that prefixes each written line: `first_line_prefix`
/// before the first line's content, `next_line_prefix` before every later
/// line's content. Writes stream through; nothing is buffered.
#[derive(Debug)]
pub struct Prefixer {
    /// Prefix for the very first line.
    pub first_line_prefix: Vec<u8>,
    /// Prefix for subsequent lines.
    pub next_line_prefix: Vec<u8>,
    /// Whether the next write is still on the first line.
    pub is_first_line: bool,
    /// Whether the next write should include a prefix.
    pub needs_prefix: bool,
}

impl View for Prefixer {
    type V = PrefixState;

    open spec fn view(&self) -> PrefixState {
        PrefixState {
            first_line_prefix: self.first_line_prefix@,
            next_line_prefix: self.next_line_prefix@,
            is_first_line: self.is_first_line,
            needs_prefix: self.needs_prefix,
        }
    }
}

impl Prefixer {
    /// Creates a new prefixing writer with the provided line prefixes.
    pub fn new(first_line_prefix: Vec<u8>, next_line_prefix: Vec<u8>) -> (p: Prefixer)
        ensures
            p@ == fresh_state(first_line_prefix@, next_line_prefix@),
    {
        Prefixer {
            first_line_prefix,
            next_line_prefix,
            is_first_line: true,
            needs_prefix: true,
        }
    }

    /// Writes `buf` through the stream into `out`: exactly the bytes that
    /// [`feed`] emits are appended, and the state advances as [`feed`]
    /// says. An empty `buf` appends nothing and changes nothing.
    pub fn write(&mut self, buf: &[u8], out: &mut Vec<u8>)
        ensures
            final(self)@ == feed(old(self)@, buf@).0,
            final(out)@ == old(out)@ + feed(old(self)@, buf@).1,
    {
        let ghost orig_self: PrefixState = self@;
        let ghost orig_out: Seq<u8> = out@;
        let mut i: usize = 0;
        proof {
            assert(buf@.subrange(0, buf@.len() as int) =~= buf@);
            assert(out@.subrange(orig_out.len() as int, out@.len() as int) =~= Seq::<u8>::empty());
            assert(out@.subrange(0, orig_out.len() as int) =~= orig_out);
        }
        while i < buf.len()
            invariant
                i <= buf@.len(),
                orig_out.len() <= out@.len(),
                out@.subrange(0, orig_out.len() as int) == orig_out,
                feed(orig_self, buf@).0 == feed(self@, buf@.subrange(i as int, buf@.len() as int)).0,
                feed(orig_self, buf@).1 == out@.subrange(orig_out.len() as int, out@.len() as int)
                    + feed(self@, buf@.subrange(i as int, buf@.len() as int)).1,
            decreases buf@.len() - i,
        {
            let ghost pre_state: PrefixState = self@;
            let ghost pre_out: Seq<u8> = out@;
            let ghost rest: Seq<u8> = buf@.subrange(i as int, buf@.len() as int);
            if self.needs_prefix {
                if self.is_first_line {
                    let prefix = self.first_line_prefix.as_slice();
                    append_bytes(out, prefix);
                } else {
                    let prefix = self.next_line_prefix.as_slice();
                    append_bytes(out, prefix);
                }
                self.is_first_line = false;
                self.needs_prefix = false;
            }
            let b = buf[i];
            out.push(b);
            if b == NEWLINE {
                self.needs_prefix = true;
            }
            i = i + 1;
            proof {
                let step = feed_byte(pre_state, rest[0]);
                assert(rest[0] == buf@[i - 1]);
                assert(self@ == step.0);
                assert(out@ =~= pre_out + step.1);
                assert(rest.subrange(1, rest.len() as int)
                    =~= buf@.subrange(i as int, buf@.len() as int));
                assert(out@.subrange(0, orig_out.len() as int) =~= orig_out);
                assert(out@.subrange(orig_out.len() as int, out@.len() as int)
                    =~= pre_out.subrange(orig_out.len() as int, pre_out.len() as int) + step.1);
                assert(feed(orig_self, buf@).1
                    =~= out@.subrange(orig_out.len() as int, out@.len() as int)
                        + feed(self@, buf@.subrange(i as int, buf@.len() as int)).1);
            }
        }
        proof {
            assert(buf@.subrange(buf@.len() as int, buf@.len() as int) =~= Seq::<u8>::empty());
            assert(out@ =~= orig_out + out@.subrange(orig_out.len() as int, out@.len() as int));
        }
    }
}

/// Feeding a concatenation equals feeding its parts one after the other:
/// the prefixing stream is invariant under how a text is chunked into
/// write calls.
pub proof fn lemma_feed_concat(p: PrefixState, a: Seq<u8>, b: Seq<u8>)
    ensures
        feed(p, a + b).0 == feed(feed(p, a).0, b).0,
        feed(p, a + b).1 == feed(p, a).1 + feed(feed(p, a).0, b).1,
    decreases a.len(),
{
    if a.len() == 0 {
        assert(a + b =~= b);
        assert(feed(p, a).1 + feed(feed(p, a).0, b).1 =~= feed(p, b).1);
    } else {
        let step = feed_byte(p, a[0]);
        lemma_feed_concat(step.0, a.subrange(1, a.len() as int), b);
        assert((a + b)[0] == a[0]);
        assert((a + b).subrange(1, (a + b).len() as int)
            =~= a.subrange(1, a.len() as int) + b);
        assert(feed(p, a + b).1
            =~= feed(p, a).1 + feed(feed(p, a).0, b).1);
    }
}

/// An empty write emits nothing and leaves the stream's state unchanged.
pub proof fn lemma_feed_empty(p: PrefixState)
    ensures
        feed(p, Seq::<u8>::empty()) == (p, Seq::<u8>::empty()),
{
}

/// A whole sequence of chunks through the stream, one write call per
/// chunk.
pub open spec fn feed_all(p: PrefixState, chunks: Seq<Seq<u8>>) -> (PrefixState, Seq<u8>)
    decreases chunks.len(),
{
    if chunks.len() == 0 {
        (p, Seq::empty())
    } else {
        let first = feed(p, chunks[0]);
        let rest = feed_all(first.0, chunks.subrange(1, chunks.len() as int));
        (rest.0, first.1 + rest.1)
    }
}

/// The stream is chunk-invariant: feeding a text in one call and feeding
/// the identical text split into any chunks across multiple calls yield
/// byte-identical output and the same state.
pub proof fn lemma_chunk_invariance(p: PrefixState, chunks: Seq<Seq<u8>>)
    ensures
        feed_all(p, chunks).0 == feed(p, chunks.flatten()).0,
        feed_all(p, chunks).1 == feed(p, chunks.flatten()).1,
    decreases chunks.len(),
{
    if chunks.len() == 0 {
        assert(chunks.flatten() =~= Seq::<u8>::empty());
        assert(feed_all(p, chunks).1 =~= feed(p, chunks.flatten()).1);
    } else {
        let rest = chunks.subrange(1, chunks.len() as int);
        let first = feed(p, chunks[0]);
        lemma_chunk_invariance(first.0, rest);
        lemma_feed_concat(p, chunks[0], rest.flatten());
        assert(chunks.drop_first() =~= rest);
        assert(chunks.flatten() == chunks.first() + chunks.drop_first().flatten());
        assert(chunks[0] + rest.flatten() =~= chunks.flatten());
        assert(feed_all(p, chunks).1 =~= feed(p, chunks.flatten()).1);
    }
}

/// The prefix the state owes next: the first-line prefix while still on
/// the first line, the next-line prefix after.
pub open spec fn pending_prefix(p: PrefixState) -> Seq<u8> {
    if p.is_first_line {
        p.first_line_prefix
    } else {
        p.next_line_prefix
    }
}

/// The state with nothing owed: the pending prefix has been emitted.
pub open spec fn discharged(p: PrefixState) -> PrefixState {
    PrefixState {
        first_line_prefix: p.first_line_prefix,
        next_line_prefix: p.next_line_prefix,
        is_first_line: false,
        needs_prefix: false,
    }
}

/// A stream emits at least one byte for every byte written through it.
pub proof fn lemma_feed_output_len(p: PrefixState, s: Seq<u8>)
    ensures
        feed(p, s).1.len() >= s.len(),
    decreases s.len(),
{
    if s.len() > 0 {
        lemma_feed_output_len(feed_byte(p, s[0]).0, s.subrange(1, s.len() as int));
    }
}

/// Two states that owe the same prefix, agree on whether one is owed, and
/// agree on the later lines' prefix, emit the same output for every input.
pub proof fn lemma_feed_state_equiv(p: PrefixState, q: PrefixState, s: Seq<u8>)
    requires
        p.needs_prefix == q.needs_prefix,
        p.next_line_prefix == q.next_line_prefix,
        pending_prefix(p) == pending_prefix(q),
    ensures
        feed(p, s).1 == feed(q, s).1,
    decreases s.len(),
{
    if s.len() > 0 {
        let sp = feed_byte(p, s[0]);
        let sq = feed_byte(q, s[0]);
        lemma_feed_state_equiv(sp.0, sq.0, s.subrange(1, s.len() as int));
    }
}

/// A state that owes a prefix emits it once before everything else; from
/// then on it behaves as if nothing had been owed.
pub proof fn lemma_feed_discharge(p: PrefixState, s: Seq<u8>)
    requires
        p.needs_prefix,
        s.len() > 0,
    ensures
        feed(p, s).1 == pending_prefix(p) + feed(discharged(p), s).1,
        feed(p, s).0 == feed(discharged(p), s).0,
{
    let step_p = feed_byte(p, s[0]);
    let step_q = feed_byte(discharged(p), s[0]);
    assert(step_p.0 == step_q.0);
    assert(feed(p, s).1 =~= pending_prefix(p) + feed(discharged(p), s).1);
}

/// Text without a line terminator passes through a stream that owes no
/// prefix unchanged, and leaves the state as it was.
pub proof fn lemma_feed_passthrough(p: PrefixState, s: Seq<u8>)
    requires
        !p.needs_prefix,
        forall|i: int| 0 <= i < s.len() ==> s[i] != NEWLINE,
    ensures
        feed(p, s).1 == s,
        feed(p, s).0 == p,
    decreases s.len(),
{
    if s.len() > 0 {
        lemma_feed_passthrough(feed_byte(p, s[0]).0, s.subrange(1, s.len() as int));
        assert(feed(p, s).1 =~= s);
    }
}

/// A fresh stream puts exactly one prefix — the first-line one — before a
/// nonempty line without terminators, and nothing else.
pub proof fn lemma_prefixed_single_line(s: Seq<u8>, first: Seq<u8>, next: Seq<u8>)
    requires
        s.len() > 0,
        forall|i: int| 0 <= i < s.len() ==> s[i] != NEWLINE,
    ensures
        prefixed(s, first, next) == first + s,
{
    let p = fresh_state(first, next);
    lemma_feed_discharge(p, s);
    lemma_feed_passthrough(discharged(p), s);
    assert(prefixed(s, first, next) =~= first + s);
}

/// A write of a single byte is one step of the stream.
proof fn lemma_feed_one(p: PrefixState, b: u8)
    ensures
        feed(p, seq![b]).0 == feed_byte(p, b).0,
        feed(p, seq![b]).1 == feed_byte(p, b).1,
{
    let s = seq![b];
    assert(s.len() == 1);
    assert(s[0] == b);
    assert(s.subrange(1, 1) =~= Seq::<u8>::empty());
    reveal_with_fuel(feed, 2);
    assert(feed(p, s).1 =~= feed_byte(p, b).1);
}

/// A fresh stream turns a first line, its terminator, and the remaining
/// text into: the first-line prefix, the line, the terminator, then the
/// remaining text through a fresh stream whose every line carries the
/// next-line prefix.
pub proof fn lemma_prefixed_line_split(line: Seq<u8>, rest: Seq<u8>, first: Seq<u8>, next: Seq<u8>)
    requires
        forall|i: int| 0 <= i < line.len() ==> line[i] != NEWLINE,
    ensures
        prefixed(line + seq![NEWLINE] + rest, first, next) == first + line + seq![NEWLINE]
            + prefixed(rest, next, next),
{
    let p = fresh_state(first, next);
    let head = line + seq![NEWLINE];
    let after = PrefixState {
        first_line_prefix: first,
        next_line_prefix: next,
        is_first_line: false,
        needs_prefix: true,
    };
    assert(feed(p, head).1 == first + line + seq![NEWLINE] && feed(p, head).0 == after) by {
        if line.len() == 0 {
            assert(head =~= seq![NEWLINE]);
            lemma_feed_one(p, NEWLINE);
            assert(feed_byte(p, NEWLINE).0 == after);
            assert(feed(p, head).1 =~= first + line + seq![NEWLINE]);
        } else {
            lemma_feed_discharge(p, head);
            let q = discharged(p);
            lemma_feed_concat(q, line, seq![NEWLINE]);
            lemma_feed_passthrough(q, line);
            lemma_feed_one(q, NEWLINE);
            assert(line + seq![NEWLINE] =~= head);
            assert(feed_byte(q, NEWLINE).0 == after);
            assert(feed_byte(q, NEWLINE).1 =~= seq![NEWLINE]);
            assert(feed(q, head).0 == after);
            assert(feed(p, head).1 =~= first + line + seq![NEWLINE]);
        }
    }
    lemma_feed_concat(p, head, rest);
    lemma_feed_state_equiv(after, fresh_state(next, next), rest);
    assert(head + rest =~= line + seq![NEWLINE] + rest);
    assert(prefixed(line + seq![NEWLINE] + rest, first, next) =~= first + line + seq![NEWLINE]
        + prefixed(rest, next, next));
}

/// Undoes the work of a stream that already emitted its line prefix: keeps
/// every byte, and after each terminator drops the next line's prefix.
pub open spec fn strip_after_prefix(s: Seq<u8>, next: Seq<u8>) -> Seq<u8>
    decreases s.len(),
{
    if s.len() == 0 {
        Seq::empty()
    } else if s[0] == NEWLINE {
        let rest = s.subrange(1, s.len() as int);
        if rest.len() == 0 {
            seq![NEWLINE]
        } else {
            let k = if next.len() <= rest.len() {
                next.len() as int
            } else {
                rest.len() as int
            };
            seq![NEWLINE] + strip_after_prefix(rest.skip(k), next)
        }
    } else {
        seq![s[0]] + strip_after_prefix(s.subrange(1, s.len() as int), next)
    }
}

/// Undoes what a fresh prefixing stream inserted: drops the first line's
/// prefix, then after each terminator the next line's prefix.
pub open spec fn strip_prefixed(s: Seq<u8>, first: Seq<u8>, next: Seq<u8>) -> Seq<u8> {
    if s.len() == 0 {
        Seq::empty()
    } else {
        let k = if first.len() <= s.len() {
            first.len() as int
        } else {
            s.len() as int
        };
        strip_after_prefix(s.skip(k), next)
    }
}

/// Stripping undoes feeding, from any state with nothing owed.
proof fn lemma_strip_feed(p: PrefixState, s: Seq<u8>)
    requires
        !p.needs_prefix,
        !p.is_first_line,
    ensures
        strip_after_prefix(feed(p, s).1, p.next_line_prefix) == s,
    decreases s.len(),
{
    if s.len() > 0 {
        let b = s[0];
        let tail = s.subrange(1, s.len() as int);
        let step = feed_byte(p, b);
        if b == NEWLINE {
            let p1 = step.0;
            if tail.len() == 0 {
                assert(feed(p1, tail).1 =~= Seq::<u8>::empty());
                assert(feed(p, s).1 =~= seq![NEWLINE]);
                assert(strip_after_prefix(feed(p, s).1, p.next_line_prefix) =~= s);
            } else {
                lemma_feed_discharge(p1, tail);
                let q = discharged(p1);
                lemma_strip_feed(q, tail);
                lemma_feed_output_len(q, tail);
                let inner = feed(q, tail).1;
                assert(feed(p, s).1 =~= seq![NEWLINE] + (p.next_line_prefix + inner));
                let out = feed(p, s).1;
                assert(out[0] == NEWLINE);
                let rest = out.subrange(1, out.len() as int);
                assert(rest =~= p.next_line_prefix + inner);
                assert(rest.len() >= p.next_line_prefix.len() + 1);
                assert(rest.skip(p.next_line_prefix.len() as int) =~= inner);
                assert(strip_after_prefix(out, p.next_line_prefix) =~= seq![NEWLINE]
                    + strip_after_prefix(inner, p.next_line_prefix));
                assert(strip_after_prefix(feed(p, s).1, p.next_line_prefix) =~= s);
            }
        } else {
            lemma_strip_feed(step.0, tail);
            let out = feed(p, s).1;
            assert(out =~= seq![b] + feed(step.0, tail).1);
            assert(out[0] == b);
            assert(out.subrange(1, out.len() as int) =~= feed(step.0, tail).1);
            assert(strip_after_prefix(feed(p, s).1, p.next_line_prefix) =~= s);
        }
    }
}

/// The prefixing stream loses nothing: removing the layer of prefixes it
/// inserted restores exactly the text that was written through it.
pub proof fn lemma_strip_prefixed(s: Seq<u8>, first: Seq<u8>, next: Seq<u8>)
    ensures
        strip_prefixed(prefixed(s, first, next), first, next) == s,
{
    if s.len() == 0 {
        assert(strip_prefixed(prefixed(s, first, next), first, next) =~= s);
    } else {
        let p = fresh_state(first, next);
        lemma_feed_discharge(p, s);
        let q = discharged(p);
        lemma_strip_feed(q, s);
        lemma_feed_output_len(q, s);
        let inner = feed(q, s).1;
        let out = prefixed(s, first, next);
        assert(out =~= first + inner);
        assert(out.len() >= first.len() + 1);
        assert(out.skip(first.len() as int) =~= inner);
        assert(strip_prefixed(out, first, next) == strip_after_prefix(inner, next));
    }
}

} // verus!
