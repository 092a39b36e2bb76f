//! Following a growing file.
//!
//! The caller polls: it reports the file's current length, reads from the
//! offset it is given up to the end, and hands the bytes back. A file that
//! has shrunk below the bytes already read was truncated; it is then read
//! again from the start, and the unfinished line that was waiting is
//! dropped.
use vstd::prelude::*;
use crate::lines::{LineSplitter, complete_lines, partial_tail, emitted, lines_view, terminated, no_newline, prefix_first, lemma_terminated_lines, lemma_split_concat};

verus! {

pub struct FileTailer {
    cursor: u64,
    splitter: LineSplitter,
}

impl FileTailer {
    /// The number of bytes of the file read so far.
    pub closed spec fn cursor_view(&self) -> nat {
        self.cursor as nat
    }

    /// Read bytes that wait for their `\n`.
    pub closed spec fn pending_view(&self) -> Seq<u8> {
        self.splitter.pending_view()
    }

    pub open spec fn wf(&self) -> bool {
        &&& no_newline(self.pending_view())
        &&& self.pending_view().len() <= self.cursor_view()
        &&& self.cursor_view() <= u64::MAX
    }

    pub fn new() -> (r: Self)
        ensures
            r.wf(),
            r.cursor_view() == 0,
            r.pending_view() == Seq::<u8>::empty(),
    {
        FileTailer { cursor: 0, splitter: LineSplitter::new() }
    }

    /// The offset where the next read starts.
    pub fn cursor(&self) -> (r: u64)
        ensures
            r == self.cursor_view(),
    {
        self.cursor
    }

    /// Given the file's length now, the offset to read from. Where the file
    /// is shorter than what was read, it was truncated: reading starts over
    /// at 0 and the waiting bytes are dropped. Otherwise nothing changes.
    pub fn read_offset(&mut self, file_len: u64) -> (r: u64)
        requires
            old(self).wf(),
        ensures
            final(self).wf(),
            r == final(self).cursor_view(),
            file_len >= old(self).cursor_view() ==> *final(self) == *old(self),
            file_len < old(self).cursor_view() ==> final(self).cursor_view() == 0
                && final(self).pending_view() == Seq::<u8>::empty(),
    {
        if file_len < self.cursor {
            self.cursor = 0;
            self.splitter.clear();
        }
        self.cursor
    }

    /// Takes in the bytes read at the cursor and hands out the lines they
    /// complete, in file order. The cursor moves past all of them; a line
    /// still without its `\n` waits for the next poll.
    pub fn consume(&mut self, chunk: &[u8]) -> (lines: Vec<Vec<u8>>)
        requires
            old(self).wf(),
            old(self).cursor_view() + chunk@.len() <= u64::MAX,
        ensures
            final(self).wf(),
            final(self).cursor_view() == old(self).cursor_view() + chunk@.len(),
            lines_view(lines@) == emitted(complete_lines(old(self).pending_view() + chunk@)),
            final(self).pending_view() == partial_tail(old(self).pending_view() + chunk@),
    {
        let lines = self.splitter.feed(chunk);
        proof {
            crate::lines::lemma_partial_tail_no_newline(old(self).pending_view() + chunk@);
            crate::lines::lemma_partial_tail_len(old(self).pending_view() + chunk@);
        }
        self.cursor = self.cursor + chunk.len() as u64;
        lines
    }
}

/// Appending complete lines to a followed file yields each of them once, in
/// the order they were appended, and nothing else: the line that was waiting
/// is completed by the first of them, and no byte already read is read
/// again.
pub proof fn lemma_append_emits_each_once(t: FileTailer, appended: Seq<Seq<u8>>)
    requires
        t.wf(),
        forall|k: int| 0 <= k < appended.len() ==> no_newline(#[trigger] appended[k]),
    ensures
        emitted(complete_lines(t.pending_view() + terminated(appended))) == emitted(
            prefix_first(t.pending_view(), appended),
        ),
        emitted(complete_lines(t.pending_view() + terminated(appended))).len() == appended.len(),
        appended.len() > 0 ==> partial_tail(t.pending_view() + terminated(appended)) == Seq::<
            u8,
        >::empty(),
{
    lemma_terminated_lines(t.pending_view(), appended);
}

/// Reading a file over two polls hands out exactly the lines that reading
/// it in one go would: no line twice, none lost, none out of order.
pub proof fn lemma_two_polls_as_one(t: FileTailer, a: Seq<u8>, b: Seq<u8>)
    requires
        t.wf(),
    ensures
        emitted(complete_lines(t.pending_view() + a)) + emitted(
            complete_lines(partial_tail(t.pending_view() + a) + b),
        ) == emitted(complete_lines(t.pending_view() + (a + b))),
        partial_tail(partial_tail(t.pending_view() + a) + b) == partial_tail(
            t.pending_view() + (a + b),
        ),
{
    let p = t.pending_view();
    lemma_split_concat(p + a, b);
    assert(p + a + b =~= p + (a + b));
    let x = complete_lines(p + a);
    let y = complete_lines(partial_tail(p + a) + b);
    assert(emitted(x + y) =~= emitted(x) + emitted(y));
}

} // verus!
