use halo::command::CommandUpdate;
use halo::stream::{DrainEvent, StreamDrainer, StreamOrigin, NEWLINE, STDERR_MARKER};
use tokio::sync::mpsc;

fn line(text: &str) -> CommandUpdate {
    CommandUpdate::NewLine(text.to_string())
}

fn feed_all(drainer: &mut StreamDrainer, chunks: &[&[u8]]) -> Vec<CommandUpdate> {
    let mut out = Vec::new();
    for chunk in chunks {
        out.extend(drainer.feed(chunk));
    }
    out
}

#[test]
fn newline_is_line_feed() {
    assert_eq!(NEWLINE, b'\n');
    assert_eq!(STDERR_MARKER, "[stderr] ");
}

#[test]
fn stdout_lines_are_the_stream_split_on_newlines() {
    let mut drainer = StreamDrainer::new(StreamOrigin::Stdout);
    let out = drainer.feed(b"one\ntwo\nthree\n");
    assert_eq!(out, vec![line("one"), line("two"), line("three")]);
    assert!(!drainer.is_stopped());
}

#[test]
fn trailing_partial_line_is_dropped() {
    let mut drainer = StreamDrainer::new(StreamOrigin::Stdout);
    let mut out = drainer.feed(b"one\ntwo\npart");
    out.extend(drainer.handle(DrainEvent::EndOfStream));
    assert_eq!(out, vec![line("one"), line("two")]);
    assert!(drainer.is_stopped());
}

#[test]
fn chunking_does_not_change_the_lines() {
    let whole: &[u8] = b"alpha\nbeta\n\ngamma\nrest";
    let mut at_once = StreamDrainer::new(StreamOrigin::Stdout);
    let expected = at_once.feed(whole);
    assert_eq!(expected, vec![line("alpha"), line("beta"), line(""), line("gamma")]);
    for cut in 0..=whole.len() {
        let mut drainer = StreamDrainer::new(StreamOrigin::Stdout);
        let out = feed_all(&mut drainer, &[&whole[..cut], &whole[cut..]]);
        assert_eq!(out, expected, "cut at {}", cut);
    }
    let mut bytewise = StreamDrainer::new(StreamOrigin::Stdout);
    let mut out = Vec::new();
    for b in whole {
        out.extend(bytewise.feed(&[*b]));
    }
    assert_eq!(out, expected);
}

#[test]
fn empty_chunk_emits_nothing() {
    let mut drainer = StreamDrainer::new(StreamOrigin::Stdout);
    assert_eq!(drainer.feed(b"abc"), vec![]);
    assert_eq!(drainer.feed(b""), vec![]);
    assert_eq!(drainer.feed(b"\n"), vec![line("abc")]);
}

#[test]
fn stderr_lines_carry_the_marker() {
    let mut drainer = StreamDrainer::new(StreamOrigin::Stderr);
    assert_eq!(drainer.origin(), StreamOrigin::Stderr);
    let out = feed_all(&mut drainer, &[b"warn", b"ing\nerror: x\n"]);
    assert_eq!(out, vec![line("[stderr] warning"), line("[stderr] error: x")]);
    for update in out {
        match update {
            CommandUpdate::NewLine(text) => assert!(text.starts_with(STDERR_MARKER)),
            CommandUpdate::Finished(_) => panic!("a drainer never emits the terminal event"),
        }
    }
}

#[test]
fn stdout_lines_are_not_marked() {
    let mut drainer = StreamDrainer::new(StreamOrigin::Stdout);
    assert_eq!(drainer.origin(), StreamOrigin::Stdout);
    assert_eq!(drainer.feed(b"[stderr] looks marked\n"), vec![line("[stderr] looks marked")]);
}

#[test]
fn utf8_is_decoded() {
    let mut drainer = StreamDrainer::new(StreamOrigin::Stdout);
    let bytes = "gr\u{fc}\u{df} dich \u{2714}\n".as_bytes();
    assert_eq!(drainer.feed(bytes), vec![line("gr\u{fc}\u{df} dich \u{2714}")]);
}

#[test]
fn a_character_may_be_cut_by_a_chunk() {
    let bytes = "\u{2714}\n".as_bytes();
    let mut drainer = StreamDrainer::new(StreamOrigin::Stdout);
    assert_eq!(drainer.feed(&bytes[..1]), vec![]);
    assert_eq!(drainer.feed(&bytes[1..]), vec![line("\u{2714}")]);
}

#[test]
fn invalid_utf8_ends_the_drainer_silently() {
    let mut drainer = StreamDrainer::new(StreamOrigin::Stdout);
    let out = drainer.feed(b"good\n\xff\xfe\nnever\n");
    assert_eq!(out, vec![line("good")]);
    assert!(drainer.is_stopped());
    assert_eq!(drainer.feed(b"more\n"), vec![]);
}

#[test]
fn carriage_return_stays_in_the_line() {
    let mut drainer = StreamDrainer::new(StreamOrigin::Stdout);
    assert_eq!(drainer.feed(b"dos\r\n"), vec![line("dos\r")]);
}

#[test]
fn closed_drainer_ignores_chunks() {
    for event in [DrainEvent::EndOfStream, DrainEvent::ReadError, DrainEvent::SinkClosed] {
        let mut drainer = StreamDrainer::new(StreamOrigin::Stdout);
        assert_eq!(drainer.feed(b"pending"), vec![]);
        assert_eq!(drainer.handle(event), vec![]);
        assert!(drainer.is_stopped());
        assert_eq!(drainer.feed(b" line\nnext\n"), vec![]);
    }
}

#[test]
fn handle_feeds_chunks() {
    let mut drainer = StreamDrainer::new(StreamOrigin::Stderr);
    let out = drainer.handle(DrainEvent::Chunk(b"x\ny".to_vec()));
    assert_eq!(out, vec![line("[stderr] x")]);
    drainer.close();
    assert!(drainer.is_stopped());
}

#[test]
fn emitting_puts_the_updates_into_the_sink_in_order() {
    let (tx, mut rx) = mpsc::unbounded_channel();
    let mut drainer = StreamDrainer::new(StreamOrigin::Stdout);
    let updates = drainer.feed(b"a\nb\n");
    assert_eq!(drainer.emit(updates, &tx), 2);
    assert_eq!(drainer.emit(vec![], &tx), 0);
    assert!(!drainer.is_stopped());
    assert_eq!(rx.try_recv(), Ok(line("a")));
    assert_eq!(rx.try_recv(), Ok(line("b")));
    assert!(rx.try_recv().is_err());
}

#[test]
fn emitting_to_a_consumer_that_is_gone_ends_the_drainer() {
    let (tx, rx) = mpsc::unbounded_channel();
    drop(rx);
    let mut drainer = StreamDrainer::new(StreamOrigin::Stdout);
    assert_eq!(drainer.emit(vec![], &tx), 0);
    assert!(!drainer.is_stopped());
    assert_eq!(drainer.emit(vec![line("lost"), line("too")], &tx), 0);
    assert!(drainer.is_stopped());
    assert_eq!(drainer.feed(b"more\n"), vec![]);
}

#[test]
fn draining_goes_on_until_the_stream_ends() {
    let (tx, mut rx) = mpsc::unbounded_channel();
    let mut drainer = StreamDrainer::new(StreamOrigin::Stderr);
    assert!(drainer.drain(DrainEvent::Chunk(b"one\ntw".to_vec()), &tx));
    assert!(drainer.drain(DrainEvent::Chunk(b"o\npart".to_vec()), &tx));
    assert!(!drainer.drain(DrainEvent::EndOfStream, &tx));
    assert!(drainer.is_stopped());
    assert_eq!(rx.try_recv(), Ok(line("[stderr] one")));
    assert_eq!(rx.try_recv(), Ok(line("[stderr] two")));
    assert!(rx.try_recv().is_err());
}

#[test]
fn draining_stops_when_the_consumer_is_gone() {
    let (tx, rx) = mpsc::unbounded_channel();
    drop(rx);
    let mut drainer = StreamDrainer::new(StreamOrigin::Stdout);
    assert!(drainer.drain(DrainEvent::Chunk(b"no line yet".to_vec()), &tx));
    assert!(!drainer.drain(DrainEvent::Chunk(b"\n".to_vec()), &tx));
    assert!(drainer.is_stopped());
}

#[test]
fn draining_stops_at_a_line_that_is_no_text() {
    let (tx, mut rx) = mpsc::unbounded_channel();
    let mut drainer = StreamDrainer::new(StreamOrigin::Stdout);
    assert!(!drainer.drain(DrainEvent::Chunk(b"ok\n\xc3\n".to_vec()), &tx));
    assert_eq!(rx.try_recv(), Ok(line("ok")));
    assert!(rx.try_recv().is_err());
    let mut drainer = StreamDrainer::new(StreamOrigin::Stdout);
    assert!(!drainer.drain(DrainEvent::ReadError, &tx));
}

#[test]
fn emitting_counts_what_the_sink_took() {
    let (tx, mut rx) = mpsc::unbounded_channel();
    let mut drainer = StreamDrainer::new(StreamOrigin::Stdout);
    assert_eq!(drainer.emit(vec![line("a"), line("b"), line("c")], &tx), 3);
    assert!(!drainer.is_stopped());
    rx.close();
    assert_eq!(drainer.emit(vec![line("d")], &tx), 0);
    assert!(drainer.is_stopped());
    assert_eq!(rx.try_recv(), Ok(line("a")));
    assert_eq!(rx.try_recv(), Ok(line("b")));
    assert_eq!(rx.try_recv(), Ok(line("c")));
    assert!(rx.try_recv().is_err());
}
