//! Cutting a byte stream into lines.
//!
//! A line is complete once its `\n` has arrived; the `\n`, and a `\r` just
//! before it, are not part of the line handed on. Bytes after the last `\n`
//! wait for more input.
use vstd::prelude::*;

verus! {

pub const NL: u8 = 10;

pub const CR: u8 = 13;

/// The complete lines of `s`, with their terminators removed.
pub open spec fn complete_lines(s: Seq<u8>) -> Seq<Seq<u8>>
    decreases s.len(),
{
    if s.len() == 0 {
        seq![]
    } else if s.last() == NL {
        complete_lines(s.drop_last()).push(partial_tail(s.drop_last()))
    } else {
        complete_lines(s.drop_last())
    }
}

/// The bytes of `s` after its last `\n`.
pub open spec fn partial_tail(s: Seq<u8>) -> Seq<u8>
    decreases s.len(),
{
    if s.len() == 0 {
        seq![]
    } else if s.last() == NL {
        seq![]
    } else {
        partial_tail(s.drop_last()).push(s.last())
    }
}

pub open spec fn no_newline(s: Seq<u8>) -> bool {
    forall|i: int| 0 <= i < s.len() ==> s[i] != NL
}

/// A line without a final `\r`.
pub open spec fn strip_cr(s: Seq<u8>) -> Seq<u8> {
    if s.len() > 0 && s.last() == CR {
        s.drop_last()
    } else {
        s
    }
}

/// The lines as they are handed on.
pub open spec fn emitted(lines: Seq<Seq<u8>>) -> Seq<Seq<u8>> {
    lines.map_values(|l: Seq<u8>| strip_cr(l))
}

/// The contents of a vector of lines.
pub open spec fn lines_view(v: Seq<Vec<u8>>) -> Seq<Seq<u8>> {
    v.map_values(|l: Vec<u8>| l@)
}

/// Each line followed by `\n`, all joined.
pub open spec fn terminated(lines: Seq<Seq<u8>>) -> Seq<u8>
    decreases lines.len(),
{
    if lines.len() == 0 {
        seq![]
    } else {
        terminated(lines.drop_last()) + lines.last() + seq![NL]
    }
}

/// The first line with `p` in front of it.
pub open spec fn prefix_first(p: Seq<u8>, lines: Seq<Seq<u8>>) -> Seq<Seq<u8>> {
    if lines.len() == 0 {
        lines
    } else {
        lines.update(0, p + lines[0])
    }
}

pub proof fn lemma_partial_tail_no_newline(s: Seq<u8>)
    ensures
        no_newline(partial_tail(s)),
    decreases s.len(),
{
    if s.len() > 0 && s.last() != NL {
        lemma_partial_tail_no_newline(s.drop_last());
    }
}

pub proof fn lemma_partial_tail_len(s: Seq<u8>)
    ensures
        partial_tail(s).len() <= s.len(),
    decreases s.len(),
{
    if s.len() > 0 {
        lemma_partial_tail_len(s.drop_last());
    }
}

/// Bytes without a `\n` complete no line and only extend the tail.
pub proof fn lemma_append_no_newline(p: Seq<u8>, t: Seq<u8>)
    requires
        no_newline(t),
    ensures
        complete_lines(p + t) == complete_lines(p),
        partial_tail(p + t) == partial_tail(p) + t,
    decreases t.len(),
{
    if t.len() == 0 {
        assert(p + t =~= p);
        assert(partial_tail(p) + t =~= partial_tail(p));
    } else {
        let t2 = t.drop_last();
        lemma_append_no_newline(p, t2);
        assert((p + t).drop_last() =~= p + t2);
        assert((p + t).last() == t.last());
        assert(partial_tail(p) + t =~= (partial_tail(p) + t2).push(t.last()));
    }
}

/// Feeding input in two parts completes the same lines as feeding it
/// whole: the tail left by the first part leads the second.
pub proof fn lemma_split_concat(a: Seq<u8>, b: Seq<u8>)
    ensures
        complete_lines(a + b) == complete_lines(a) + complete_lines(partial_tail(a) + b),
        partial_tail(a + b) == partial_tail(partial_tail(a) + b),
    decreases b.len(),
{
    let r = partial_tail(a);
    if b.len() == 0 {
        assert(a + b =~= a);
        assert(r + b =~= r);
        lemma_partial_tail_no_newline(a);
        lemma_append_no_newline(seq![], r);
        assert(seq![] + r =~= r);
        assert(complete_lines(seq![]) =~= seq![]);
        assert(complete_lines(a) + complete_lines(r) =~= complete_lines(a));
    } else {
        let b2 = b.drop_last();
        lemma_split_concat(a, b2);
        assert((a + b).drop_last() =~= a + b2);
        assert((r + b).drop_last() =~= r + b2);
        assert((a + b).last() == b.last());
        assert((r + b).last() == b.last());
        if b.last() == NL {
            assert(complete_lines(a + b) =~= complete_lines(a) + complete_lines(r + b));
        }
    }
}

/// Feeding complete lines after a tail `p` completes exactly those lines,
/// the first one led by `p`, and leaves no tail.
pub proof fn lemma_terminated_lines(p: Seq<u8>, lines: Seq<Seq<u8>>)
    requires
        no_newline(p),
        forall|k: int| 0 <= k < lines.len() ==> no_newline(#[trigger] lines[k]),
    ensures
        complete_lines(p + terminated(lines)) == prefix_first(p, lines),
        partial_tail(p + terminated(lines)) == (if lines.len() == 0 {
            p
        } else {
            seq![]
        }),
    decreases lines.len(),
{
    if lines.len() == 0 {
        assert(p + terminated(lines) =~= seq![] + p);
        lemma_append_no_newline(seq![], p);
        assert(complete_lines(seq![]) =~= seq![]);
        assert(prefix_first(p, lines) =~= seq![]);
    } else {
        let l2 = lines.drop_last();
        let last = lines.last();
        assert(no_newline(last));
        lemma_terminated_lines(p, l2);
        let base = p + terminated(l2);
        let s = p + terminated(lines);
        assert(s =~= (base + last).push(NL));
        assert(s.drop_last() =~= base + last);
        lemma_append_no_newline(base, last);
        if l2.len() == 0 {
            assert(partial_tail(base) + last =~= p + last);
            assert(prefix_first(p, lines) =~= seq![p + last]);
            assert(complete_lines(s) =~= seq![p + last]);
        } else {
            assert(partial_tail(base) + last =~= last);
            assert(prefix_first(p, lines) =~= prefix_first(p, l2).push(last));
        }
    }
}

/// Holds the tail of the input that has no `\n` yet.
pub struct LineSplitter {
    pending: Vec<u8>,
}

impl LineSplitter {
    /// The bytes waiting for their `\n`.
    pub closed spec fn pending_view(&self) -> Seq<u8> {
        self.pending@
    }

    pub open spec fn wf(&self) -> bool {
        no_newline(self.pending_view())
    }

    pub fn new() -> (r: Self)
        ensures
            r.wf(),
            r.pending_view() == Seq::<u8>::empty(),
    {
        LineSplitter { pending: Vec::new() }
    }

    pub fn has_pending(&self) -> (r: bool)
        ensures
            r == (self.pending_view().len() > 0),
    {
        self.pending.len() > 0
    }

    /// Drops the waiting bytes.
    pub fn clear(&mut self)
        ensures
            final(self).wf(),
            final(self).pending_view() == Seq::<u8>::empty(),
    {
        self.pending = Vec::new();
    }

    /// Takes in `chunk` and hands out the lines it completes, in order.
    pub fn feed(&mut self, chunk: &[u8]) -> (lines: Vec<Vec<u8>>)
        requires
            old(self).wf(),
        ensures
            final(self).wf(),
            lines_view(lines@) == emitted(complete_lines(old(self).pending_view() + chunk@)),
            final(self).pending_view() == partial_tail(old(self).pending_view() + chunk@),
    {
        let ghost p = self.pending@;
        proof {
            lemma_append_no_newline(seq![], p);
            assert(seq![] + p =~= p);
            assert(complete_lines(seq![]) =~= seq![]);
        }
        let mut cur: Vec<u8> = Vec::new();
        std::mem::swap(&mut cur, &mut self.pending);
        let mut out: Vec<Vec<u8>> = Vec::new();
        let mut i: usize = 0;
        while i < chunk.len()
            invariant
                i <= chunk@.len(),
                lines_view(out@) == emitted(complete_lines(p + chunk@.take(i as int))),
                cur@ == partial_tail(p + chunk@.take(i as int)),
            decreases chunk.len() - i,
        {
            let ghost before = p + chunk@.take(i as int);
            let ghost after = p + chunk@.take(i + 1);
            assert(after.drop_last() =~= before);
            assert(after.last() == chunk@[i as int]);
            let b = chunk[i];
            if b == NL {
                let mut line: Vec<u8> = Vec::new();
                std::mem::swap(&mut line, &mut cur);
                if line.len() > 0 && line[line.len() - 1] == CR {
                    line.pop();
                }
                assert(line@ == strip_cr(partial_tail(before)));
                let ghost prev = out@;
                out.push(line);
                assert(complete_lines(after) == complete_lines(before).push(partial_tail(before)));
                assert(out@ =~= prev.push(line));
                assert(lines_view(out@) =~= lines_view(prev).push(line@));
                assert(emitted(complete_lines(after)) =~= emitted(complete_lines(before)).push(
                    strip_cr(partial_tail(before)),
                ));
            } else {
                cur.push(b);
            }
            i += 1;
        }
        assert(chunk@.take(chunk@.len() as int) =~= chunk@);
        self.pending = cur;
        proof {
            lemma_partial_tail_no_newline(p + chunk@);
        }
        out
    }

    /// At the end of the input, the unterminated last line, if any, as it
    /// stands.
    pub fn finish(&mut self) -> (r: Option<Vec<u8>>)
        requires
            old(self).wf(),
        ensures
            final(self).wf(),
            final(self).pending_view() == Seq::<u8>::empty(),
            old(self).pending_view().len() == 0 ==> r is None,
            old(self).pending_view().len() > 0 ==> r is Some && r->0@ == old(
                self,
            ).pending_view(),
    {
        if self.pending.len() == 0 {
            None
        } else {
            let mut line: Vec<u8> = Vec::new();
            std::mem::swap(&mut line, &mut self.pending);
            Some(line)
        }
    }
}

} // verus!
