//! Merging the two output streams of a child process.
//!
//! Each stream is read by its own reader, which hands over chunks of bytes
//! as they come and says when its stream has closed. Each stream is cut into
//! lines on its own, so the lines of one stream keep their order whatever
//! the interleaving with the other. The exit status is reported only once
//! both streams are drained.
use vstd::prelude::*;
use crate::lines::{LineSplitter, complete_lines, partial_tail, emitted, lines_view, no_newline, lemma_split_concat, lemma_partial_tail_no_newline};

verus! {

#[derive(PartialEq, Eq, Structural, Clone, Copy, Debug)]
pub enum Stream {
    Stdout,
    Stderr,
}

/// All bytes that stream `s` has delivered, in order.
pub open spec fn stream_bytes(evs: Seq<(Stream, Seq<u8>)>, s: Stream) -> Seq<u8>
    decreases evs.len(),
{
    if evs.len() == 0 {
        seq![]
    } else if evs.last().0 == s {
        stream_bytes(evs.drop_last(), s) + evs.last().1
    } else {
        stream_bytes(evs.drop_last(), s)
    }
}

/// The lines of stream `s` handed out by the merge, chunk by chunk.
pub open spec fn stream_lines(evs: Seq<(Stream, Seq<u8>)>, s: Stream) -> Seq<Seq<u8>>
    decreases evs.len(),
{
    if evs.len() == 0 {
        seq![]
    } else if evs.last().0 == s {
        stream_lines(evs.drop_last(), s) + emitted(
            complete_lines(partial_tail(stream_bytes(evs.drop_last(), s)) + evs.last().1),
        )
    } else {
        stream_lines(evs.drop_last(), s)
    }
}

/// Whatever the interleaving of the two streams, the lines handed out for
/// one stream are exactly the complete lines of what that stream delivered,
/// in its own order: none is lost, repeated or reordered.
pub proof fn lemma_stream_order_kept(evs: Seq<(Stream, Seq<u8>)>, s: Stream)
    ensures
        stream_lines(evs, s) == emitted(complete_lines(stream_bytes(evs, s))),
    decreases evs.len(),
{
    if evs.len() == 0 {
        assert(complete_lines(seq![]) =~= seq![]);
        assert(emitted(seq![]) =~= seq![]);
    } else {
        let pre = evs.drop_last();
        lemma_stream_order_kept(pre, s);
        if evs.last().0 == s {
            let a = stream_bytes(pre, s);
            let b = evs.last().1;
            lemma_split_concat(a, b);
            let x = complete_lines(a);
            let y = complete_lines(partial_tail(a) + b);
            assert(emitted(x + y) =~= emitted(x) + emitted(y));
        }
    }
}

pub struct ProcessMerge {
    out: LineSplitter,
    err: LineSplitter,
    out_open: bool,
    err_open: bool,
    exit: Option<i32>,
    history: Ghost<Seq<(Stream, Seq<u8>)>>,
}

impl ProcessMerge {
    /// The chunks delivered so far, with their stream.
    pub closed spec fn history(&self) -> Seq<(Stream, Seq<u8>)> {
        self.history@
    }

    pub closed spec fn is_open(&self, s: Stream) -> bool {
        match s {
            Stream::Stdout => self.out_open,
            Stream::Stderr => self.err_open,
        }
    }

    /// The bytes of stream `s` that wait for their `\n`.
    pub closed spec fn pending(&self, s: Stream) -> Seq<u8> {
        match s {
            Stream::Stdout => self.out.pending_view(),
            Stream::Stderr => self.err.pending_view(),
        }
    }

    /// The child's exit status, once known.
    pub closed spec fn exit_view(&self) -> Option<i32> {
        self.exit
    }

    /// The waiting bytes of an open stream are the tail of what it delivered.
    pub open spec fn stream_ok(&self, s: Stream) -> bool {
        &&& no_newline(self.pending(s))
        &&& self.is_open(s) ==> self.pending(s) == partial_tail(stream_bytes(self.history(), s))
    }

    pub open spec fn wf(&self) -> bool {
        self.stream_ok(Stream::Stdout) && self.stream_ok(Stream::Stderr)
    }

    pub fn new() -> (r: Self)
        ensures
            r.wf(),
            r.history() == Seq::<(Stream, Seq<u8>)>::empty(),
            r.is_open(Stream::Stdout),
            r.is_open(Stream::Stderr),
            r.exit_view() is None,
    {
        ProcessMerge {
            out: LineSplitter::new(),
            err: LineSplitter::new(),
            out_open: true,
            err_open: true,
            exit: None,
            history: Ghost(Seq::empty()),
        }
    }

    pub fn is_stream_open(&self, s: Stream) -> (r: bool)
        ensures
            r == self.is_open(s),
    {
        match s {
            Stream::Stdout => self.out_open,
            Stream::Stderr => self.err_open,
        }
    }

    /// Takes a chunk from stream `s` and hands out the lines of that stream
    /// that it completes, in order.
    pub fn on_output(&mut self, s: Stream, chunk: &[u8]) -> (lines: Vec<Vec<u8>>)
        requires
            old(self).wf(),
            old(self).is_open(s),
        ensures
            final(self).wf(),
            final(self).history() == old(self).history().push((s, chunk@)),
            lines_view(lines@) == emitted(
                complete_lines(partial_tail(stream_bytes(old(self).history(), s)) + chunk@),
            ),
            stream_lines(final(self).history(), s) == stream_lines(old(self).history(), s)
                + lines_view(lines@),
            forall|t: Stream| #[trigger] final(self).is_open(t) == old(self).is_open(t),
            final(self).exit_view() == old(self).exit_view(),
    {
        let ghost h = self.history@;
        let lines = match s {
            Stream::Stdout => self.out.feed(chunk),
            Stream::Stderr => self.err.feed(chunk),
        };
        self.history = Ghost(h.push((s, chunk@)));
        proof {
            let h2 = self.history@;
            assert(h2.drop_last() =~= h);
            lemma_split_concat(stream_bytes(h, s), chunk@);
            lemma_partial_tail_no_newline(partial_tail(stream_bytes(h, s)) + chunk@);
            assert(stream_bytes(h2, s) == stream_bytes(h, s) + chunk@);
            match s {
                Stream::Stdout => {
                    assert(stream_bytes(h2, Stream::Stderr) == stream_bytes(h, Stream::Stderr));
                },
                Stream::Stderr => {
                    assert(stream_bytes(h2, Stream::Stdout) == stream_bytes(h, Stream::Stdout));
                },
            }
        }
        lines
    }

    /// Stream `s` has closed: hands out its unterminated last line, if any.
    pub fn on_closed(&mut self, s: Stream) -> (r: Option<Vec<u8>>)
        requires
            old(self).wf(),
        ensures
            final(self).wf(),
            final(self).history() == old(self).history(),
            !final(self).is_open(s),
            forall|t: Stream| t != s ==> #[trigger] final(self).is_open(t) == old(self).is_open(t),
            final(self).exit_view() == old(self).exit_view(),
            old(self).pending(s).len() == 0 ==> r is None,
            old(self).pending(s).len() > 0 ==> r is Some && r->0@ == old(self).pending(s),
    {
        let r = match s {
            Stream::Stdout => {
                self.out_open = false;
                self.out.finish()
            },
            Stream::Stderr => {
                self.err_open = false;
                self.err.finish()
            },
        };
        r
    }

    /// The child has exited with `status`.
    pub fn on_exit(&mut self, status: i32)
        requires
            old(self).wf(),
        ensures
            final(self).wf(),
            final(self).history() == old(self).history(),
            forall|t: Stream| #[trigger] final(self).is_open(t) == old(self).is_open(t),
            forall|t: Stream| #[trigger] final(self).pending(t) == old(self).pending(t),
            final(self).exit_view() == Some(status),
    {
        self.exit = Some(status);
    }

    /// The exit status, once the child has exited and both streams are
    /// drained; before that, nothing.
    pub fn exit_report(&self) -> (r: Option<i32>)
        ensures
            r == (if !self.is_open(Stream::Stdout) && !self.is_open(Stream::Stderr) {
                self.exit_view()
            } else {
                None
            }),
    {
        if !self.out_open && !self.err_open {
            self.exit
        } else {
            None
        }
    }
}

} // verus!
