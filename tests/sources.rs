use catlog::lines::LineSplitter;
use catlog::process::{ProcessMerge, Stream};
use catlog::tail::FileTailer;

fn strs(lines: Vec<Vec<u8>>) -> Vec<String> {
    lines.into_iter().map(|l| String::from_utf8(l).unwrap()).collect()
}

#[test]
fn splitter_holds_partial_line() {
    let mut s = LineSplitter::new();
    assert_eq!(strs(s.feed(b"one\ntw")), vec!["one"]);
    assert!(s.has_pending());
    assert_eq!(strs(s.feed(b"o\r\nthree")), vec!["two"]);
    assert_eq!(s.finish(), Some(b"three".to_vec()));
    assert_eq!(s.finish(), None);
}

#[test]
fn splitter_keeps_empty_lines() {
    let mut s = LineSplitter::new();
    assert_eq!(strs(s.feed(b"\n\na\n")), vec!["", "", "a"]);
    assert!(!s.has_pending());
}

#[test]
fn tailer_emits_appended_lines_once() {
    let mut t = FileTailer::new();
    assert_eq!(t.read_offset(6), 0);
    assert_eq!(strs(t.consume(b"a\nb\nc")), vec!["a", "b"]);
    assert_eq!(t.cursor(), 5);
    // nothing new yet
    assert_eq!(t.read_offset(5), 5);
    assert_eq!(strs(t.consume(b"")), Vec::<String>::new());
    // three complete lines appended after the partial "c"
    assert_eq!(t.read_offset(14), 5);
    assert_eq!(strs(t.consume(b"\nd\ne\nf\n")), vec!["c", "d", "e", "f"]);
    assert_eq!(t.cursor(), 12);
    assert_eq!(t.read_offset(14), 12);
    assert_eq!(strs(t.consume(b"g\nh\n")), vec!["g", "h"]);
}

#[test]
fn tailer_restarts_after_truncation() {
    let mut t = FileTailer::new();
    let off = t.read_offset(8);
    assert_eq!(off, 0);
    assert_eq!(strs(t.consume(b"abc\nxyz")), vec!["abc"]);
    assert_eq!(t.read_offset(3), 0);
    assert_eq!(t.cursor(), 0);
    assert_eq!(strs(t.consume(b"new\n")), vec!["new"]);
    assert_eq!(t.cursor(), 4);
}

#[test]
fn stdout_order_kept_with_no_stderr() {
    let mut m = ProcessMerge::new();
    let mut got: Vec<Vec<u8>> = Vec::new();
    got.extend(m.on_output(Stream::Stdout, b"A\nB"));
    got.extend(m.on_output(Stream::Stdout, b"\nC\n"));
    assert_eq!(m.on_closed(Stream::Stderr), None);
    assert_eq!(m.on_closed(Stream::Stdout), None);
    assert_eq!(strs(got), vec!["A", "B", "C"]);
}

#[test]
fn stderr_only_output_is_kept() {
    let mut m = ProcessMerge::new();
    assert_eq!(m.on_closed(Stream::Stdout), None);
    let got = m.on_output(Stream::Stderr, b"err 500\n");
    assert_eq!(strs(got), vec!["err 500"]);
    assert_eq!(m.on_closed(Stream::Stderr), None);
}

#[test]
fn interleaved_streams_keep_their_own_order() {
    let mut m = ProcessMerge::new();
    let mut out: Vec<Vec<u8>> = Vec::new();
    let mut err: Vec<Vec<u8>> = Vec::new();
    out.extend(m.on_output(Stream::Stdout, b"o1\no"));
    err.extend(m.on_output(Stream::Stderr, b"e1"));
    out.extend(m.on_output(Stream::Stdout, b"2\n"));
    err.extend(m.on_output(Stream::Stderr, b"\ne2\n"));
    assert_eq!(strs(out), vec!["o1", "o2"]);
    assert_eq!(strs(err), vec!["e1", "e2"]);
}

#[test]
fn trailing_unterminated_line_is_flushed_on_close() {
    let mut m = ProcessMerge::new();
    assert!(m.on_output(Stream::Stdout, b"last").is_empty());
    assert_eq!(m.on_closed(Stream::Stdout), Some(b"last".to_vec()));
    assert!(!m.is_stream_open(Stream::Stdout));
    assert!(m.is_stream_open(Stream::Stderr));
}

#[test]
fn exit_reported_only_after_both_streams_drain() {
    let mut m = ProcessMerge::new();
    m.on_exit(3);
    assert_eq!(m.exit_report(), None);
    m.on_closed(Stream::Stdout);
    assert_eq!(m.exit_report(), None);
    m.on_closed(Stream::Stderr);
    assert_eq!(m.exit_report(), Some(3));
}
