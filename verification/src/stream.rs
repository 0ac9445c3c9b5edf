//! Draining one output stream of a command into line updates.
//!
//! A stream is a sequence of bytes that arrives in chunks. Every byte `\n`
//! ends a line; the bytes before it, back to the previous `\n`, are decoded as
//! UTF-8 and become one [`CommandUpdate::NewLine`]. Bytes after the last `\n`
//! are an unfinished line and are never emitted. A line that is not valid
//! UTF-8 ends the drainer without an update of its own.

use crate::command::{update_views, CommandUpdate, UpdateView};
use tokio::sync::mpsc::UnboundedSender;
use vstd::prelude::*;
use vstd::string::StringExecFns;
use vstd::utf8::{decode_utf8, valid_utf8};

verus! {

/// The byte that ends a line.
pub const NEWLINE: u8 = 10;

/// The marker in front of every line that was read from standard error.
pub const STDERR_MARKER: &'static str = "[stderr] ";

/// Which of the two output streams of a command a drainer reads.
#[derive(Clone, Copy, Debug, PartialEq, Eq, Structural)]
pub enum StreamOrigin {
    Stdout,
    Stderr,
}

/// The marker as a sequence of characters.
pub open spec fn stderr_marker() -> Seq<char> {
    STDERR_MARKER@
}

/// The index of the first `\n` in `bytes`, or the length of `bytes` if it
/// holds none.
pub open spec fn line_end(bytes: Seq<u8>) -> int
    decreases bytes.len(),
{
    if bytes.len() == 0 || bytes[0] == NEWLINE {
        0
    } else {
        1 + line_end(bytes.drop_first())
    }
}

/// The terminated lines of `bytes`, each without its `\n`, in order.
pub open spec fn complete_lines(bytes: Seq<u8>) -> Seq<Seq<u8>>
    decreases bytes.len(),
{
    let n = line_end(bytes);
    if 0 <= n < bytes.len() {
        seq![bytes.take(n)] + complete_lines(bytes.skip(n + 1))
    } else {
        Seq::empty()
    }
}

/// What follows the last `\n` of `bytes`: the line that is not finished yet.
pub open spec fn partial_line(bytes: Seq<u8>) -> Seq<u8>
    decreases bytes.len(),
{
    let n = line_end(bytes);
    if 0 <= n < bytes.len() {
        partial_line(bytes.skip(n + 1))
    } else {
        bytes
    }
}

/// No byte of `bytes` ends a line.
pub open spec fn has_no_newline(bytes: Seq<u8>) -> bool {
    forall|i: int| 0 <= i < bytes.len() ==> bytes[i] != NEWLINE
}

/// Every line is valid UTF-8.
pub open spec fn all_valid(lines: Seq<Seq<u8>>) -> bool {
    forall|i: int| 0 <= i < lines.len() ==> valid_utf8(#[trigger] lines[i])
}

/// The text that a drainer of `origin` emits for the decoded line `text`.
pub open spec fn line_text(origin: StreamOrigin, text: Seq<char>) -> Seq<char> {
    match origin {
        StreamOrigin::Stdout => text,
        StreamOrigin::Stderr => stderr_marker() + text,
    }
}

/// The updates for `lines`: one per line, in order, up to the first line that
/// is not valid UTF-8.
pub open spec fn line_updates(origin: StreamOrigin, lines: Seq<Seq<u8>>) -> Seq<UpdateView>
    decreases lines.len(),
{
    if lines.len() == 0 || !valid_utf8(lines[0]) {
        Seq::empty()
    } else {
        seq![UpdateView::NewLine(line_text(origin, decode_utf8(lines[0])))] + line_updates(
            origin,
            lines.drop_first(),
        )
    }
}

/// Everything a drainer of `origin` emits for the stream `bytes`.
pub open spec fn stream_updates(origin: StreamOrigin, bytes: Seq<u8>) -> Seq<UpdateView> {
    line_updates(origin, complete_lines(bytes))
}

/// `line_end` lies within the sequence, points at a `\n` unless it is the
/// length, and no `\n` stands before it.
pub proof fn lemma_line_end(bytes: Seq<u8>)
    ensures
        0 <= line_end(bytes) <= bytes.len(),
        line_end(bytes) < bytes.len() ==> bytes[line_end(bytes)] == NEWLINE,
        has_no_newline(bytes.take(line_end(bytes))),
        has_no_newline(bytes) <==> line_end(bytes) == bytes.len(),
    decreases bytes.len(),
{
    if bytes.len() > 0 && bytes[0] != NEWLINE {
        let rest = bytes.drop_first();
        lemma_line_end(rest);
        let n = line_end(bytes);
        assert forall|i: int| 0 <= i < n implies bytes.take(n)[i] != NEWLINE by {
            if i > 0 {
                assert(rest.take(n - 1)[i - 1] == bytes[i]);
            }
        }
        if n == bytes.len() {
            assert forall|i: int| 0 <= i < bytes.len() implies bytes[i] != NEWLINE by {
                if i > 0 {
                    assert(rest[i - 1] == bytes[i]);
                }
            }
        }
    }
}

/// A sequence without `\n` has no terminated line and is its own unfinished
/// line.
pub proof fn lemma_no_newline(bytes: Seq<u8>)
    requires
        has_no_newline(bytes),
    ensures
        complete_lines(bytes) == Seq::<Seq<u8>>::empty(),
        partial_line(bytes) == bytes,
{
    lemma_line_end(bytes);
}

proof fn lemma_line_end_push(bytes: Seq<u8>, b: u8)
    ensures
        line_end(bytes.push(b)) == if line_end(bytes) < bytes.len() {
            line_end(bytes)
        } else if b == NEWLINE {
            bytes.len() as int
        } else {
            bytes.len() as int + 1
        },
    decreases bytes.len(),
{
    lemma_line_end(bytes);
    let ext = bytes.push(b);
    if bytes.len() == 0 {
        assert(line_end(ext.drop_first()) == 0);
    } else if bytes[0] != NEWLINE {
        lemma_line_end_push(bytes.drop_first(), b);
        lemma_line_end(bytes.drop_first());
        assert(ext.drop_first() =~= bytes.drop_first().push(b));
    }
}

/// How one more byte changes the lines: a `\n` finishes the unfinished line,
/// any other byte extends it.
pub proof fn lemma_lines_push(bytes: Seq<u8>, b: u8)
    ensures
        b == NEWLINE ==> complete_lines(bytes.push(b)) == complete_lines(bytes).push(
            partial_line(bytes),
        ) && partial_line(bytes.push(b)) == Seq::<u8>::empty(),
        b != NEWLINE ==> complete_lines(bytes.push(b)) == complete_lines(bytes) && partial_line(
            bytes.push(b),
        ) == partial_line(bytes).push(b),
    decreases bytes.len(),
{
    lemma_line_end(bytes);
    lemma_line_end_push(bytes, b);
    let ext = bytes.push(b);
    let n = line_end(bytes);
    if n < bytes.len() {
        let rest = bytes.skip(n + 1);
        lemma_lines_push(rest, b);
        assert(ext.skip(n + 1) =~= rest.push(b));
        assert(ext.take(n) =~= bytes.take(n));
    } else if b == NEWLINE {
        assert(ext.take(n) =~= bytes);
        assert(ext.skip(n + 1) =~= Seq::<u8>::empty());
        assert(complete_lines(Seq::<u8>::empty()) =~= Seq::<Seq<u8>>::empty());
        assert(partial_line(Seq::<u8>::empty()) =~= Seq::<u8>::empty());
    }
}

/// The lines of two pieces read one after the other are the lines of the
/// first piece, then those of the second piece behind the unfinished line of
/// the first.
pub proof fn lemma_lines_concat(a: Seq<u8>, b: Seq<u8>)
    ensures
        complete_lines(a + b) == complete_lines(a) + complete_lines(partial_line(a) + b),
        partial_line(a + b) == partial_line(partial_line(a) + b),
    decreases b.len(),
{
    let p = partial_line(a);
    if b.len() == 0 {
        lemma_partial_line_has_no_newline(a);
        lemma_no_newline(p);
    } else {
        let front = b.drop_last();
        let x = b.last();
        lemma_lines_concat(a, front);
        assert(a + b =~= (a + front).push(x));
        assert(p + b =~= (p + front).push(x));
        lemma_lines_push(a + front, x);
        lemma_lines_push(p + front, x);
    }
}

/// The unfinished line holds no `\n`.
pub proof fn lemma_partial_line_has_no_newline(bytes: Seq<u8>)
    ensures
        has_no_newline(partial_line(bytes)),
    decreases bytes.len(),
{
    lemma_line_end(bytes);
    let n = line_end(bytes);
    if n < bytes.len() {
        lemma_partial_line_has_no_newline(bytes.skip(n + 1));
    }
}

/// The updates of two runs of lines: those of the first run, and those of the
/// second only if every line of the first is valid UTF-8.
pub proof fn lemma_line_updates_concat(origin: StreamOrigin, l1: Seq<Seq<u8>>, l2: Seq<Seq<u8>>)
    ensures
        all_valid(l1) ==> line_updates(origin, l1 + l2) == line_updates(origin, l1) + line_updates(
            origin,
            l2,
        ),
        !all_valid(l1) ==> line_updates(origin, l1 + l2) == line_updates(origin, l1),
        all_valid(l1 + l2) <==> all_valid(l1) && all_valid(l2),
    decreases l1.len(),
{
    let all = l1 + l2;
    if all_valid(all) {
        assert forall|i: int| 0 <= i < l1.len() implies valid_utf8(#[trigger] l1[i]) by {
            assert(all[i] == l1[i]);
        }
        assert forall|i: int| 0 <= i < l2.len() implies valid_utf8(#[trigger] l2[i]) by {
            assert(all[i + l1.len()] == l2[i]);
        }
    }
    if l1.len() > 0 {
        let head = l1[0];
        let rest = l1.drop_first();
        assert(all.drop_first() =~= rest + l2);
        lemma_line_updates_concat(origin, rest, l2);
        if valid_utf8(head) && all_valid(rest) {
            assert forall|i: int| 0 <= i < l1.len() implies valid_utf8(#[trigger] l1[i]) by {
                if i > 0 {
                    assert(l1[i] == rest[i - 1]);
                }
            }
        }
    }
}

/// Valid lines give one update each: the decoded line, with the marker in
/// front if it came from standard error.
pub proof fn lemma_line_updates_of_valid(origin: StreamOrigin, lines: Seq<Seq<u8>>)
    requires
        all_valid(lines),
    ensures
        line_updates(origin, lines).len() == lines.len(),
        forall|i: int|
            0 <= i < lines.len() ==> #[trigger] line_updates(origin, lines)[i] == UpdateView::NewLine(
                line_text(origin, decode_utf8(lines[i])),
            ),
    decreases lines.len(),
{
    if lines.len() > 0 {
        let rest = lines.drop_first();
        lemma_line_updates_of_valid(origin, rest);
    }
}

/// The state of a drainer as plain values.
pub struct DrainerView {
    /// The stream that is read.
    pub origin: StreamOrigin,
    /// The bytes of the line that is not finished yet.
    pub pending: Seq<u8>,
    /// Whether the drainer has ended: nothing is emitted any more.
    pub stopped: bool,
}

impl DrainerView {
    /// A drainer that has read nothing yet.
    pub open spec fn start(origin: StreamOrigin) -> DrainerView {
        DrainerView { origin, pending: Seq::empty(), stopped: false }
    }

    /// The unfinished line holds no `\n`.
    pub open spec fn wf(self) -> bool {
        has_no_newline(self.pending)
    }

    /// The drainer after its stream ended, failed, or its consumer went away.
    pub open spec fn close(self) -> DrainerView {
        DrainerView { origin: self.origin, pending: Seq::empty(), stopped: true }
    }

    /// The drainer after `chunk` arrived, and the updates that it emits for
    /// it. A stopped drainer ignores the chunk. Otherwise every line that the
    /// chunk finishes is emitted, up to the first that is not valid UTF-8,
    /// which stops the drainer.
    pub open spec fn feed(self, chunk: Seq<u8>) -> (DrainerView, Seq<UpdateView>) {
        if self.stopped {
            (self, Seq::empty())
        } else {
            let bytes = self.pending + chunk;
            let lines = complete_lines(bytes);
            if all_valid(lines) {
                (
                    DrainerView {
                        origin: self.origin,
                        pending: partial_line(bytes),
                        stopped: false,
                    },
                    line_updates(self.origin, lines),
                )
            } else {
                (self.close(), line_updates(self.origin, lines))
            }
        }
    }

    /// The drainer after `event`, and the updates that it emits for it: a
    /// chunk is fed, and anything else ends the drainer without an update.
    pub open spec fn handle(self, event: DrainEventView) -> (DrainerView, Seq<UpdateView>) {
        match event {
            DrainEventView::Chunk(bytes) => self.feed(bytes),
            _ => (self.close(), Seq::empty()),
        }
    }

    /// The drainer after the chunks arrived one after the other, and all the
    /// updates that it emits for them, in order.
    pub open spec fn feed_all(self, chunks: Seq<Seq<u8>>) -> (DrainerView, Seq<UpdateView>)
        decreases chunks.len(),
    {
        if chunks.len() == 0 {
            (self, Seq::empty())
        } else {
            let (next, first) = self.feed(chunks[0]);
            let (last, rest) = next.feed_all(chunks.drop_first());
            (last, first + rest)
        }
    }
}

/// What arrives at a drainer.
#[derive(Debug, PartialEq, Eq)]
pub enum DrainEvent {
    /// The next bytes of the stream.
    Chunk(Vec<u8>),
    /// The stream reported its end.
    EndOfStream,
    /// Reading the stream failed.
    ReadError,
    /// The consumer of the updates is gone.
    SinkClosed,
}

/// [`DrainEvent`] as plain values.
pub enum DrainEventView {
    Chunk(Seq<u8>),
    EndOfStream,
    ReadError,
    SinkClosed,
}

impl View for DrainEvent {
    type V = DrainEventView;

    open spec fn view(&self) -> DrainEventView {
        match self {
            DrainEvent::Chunk(bytes) => DrainEventView::Chunk(bytes@),
            DrainEvent::EndOfStream => DrainEventView::EndOfStream,
            DrainEvent::ReadError => DrainEventView::ReadError,
            DrainEvent::SinkClosed => DrainEventView::SinkClosed,
        }
    }
}

/// Reads one output stream of a command, chunk by chunk, and turns it into
/// line updates.
#[derive(Debug)]
pub struct StreamDrainer {
    origin: StreamOrigin,
    pending: Vec<u8>,
    stopped: bool,
}

impl View for StreamDrainer {
    type V = DrainerView;

    closed spec fn view(&self) -> DrainerView {
        DrainerView { origin: self.origin, pending: self.pending@, stopped: self.stopped }
    }
}

/// The sending half of an unbounded channel of tokio: the sink that the
/// units of a command put their updates into.
#[verifier::external_type_specification]
#[verifier::external_body]
#[verifier::reject_recursive_types(T)]
pub struct ExUnboundedSender<T>(UnboundedSender<T>);

/// `tokio::sync::mpsc::UnboundedSender::send` queues a message for the
/// receiving half without waiting, and fails if that half is gone. Which of
/// the two happens depends on the consumer, so nothing is said of the result.
#[verifier::external_body]
pub(crate) fn send_update(sink: &UnboundedSender<CommandUpdate>, update: CommandUpdate) -> (sent:
    bool) {
    sink.send(update).is_ok()
}

/// `String::from_utf8` gives the text that the bytes encode, and fails
/// exactly when they are not valid UTF-8.
#[verifier::external_body]
fn decode_line(bytes: Vec<u8>) -> (text: Option<String>)
    ensures
        text is Some <==> valid_utf8(bytes@),
        text matches Some(t) ==> t@ == decode_utf8(bytes@),
{
    match String::from_utf8(bytes) {
        Ok(t) => Some(t),
        Err(_) => None,
    }
}

/// The decoded line as it is emitted for `origin`.
fn tag_line(origin: StreamOrigin, text: String) -> (line: String)
    ensures
        line@ == line_text(origin, text@),
{
    match origin {
        StreamOrigin::Stdout => text,
        StreamOrigin::Stderr => {
            let mut line = STDERR_MARKER.to_owned();
            line.append(text.as_str());
            line
        },
    }
}

impl StreamDrainer {
    /// The unfinished line holds no `\n`.
    pub open spec fn wf(&self) -> bool {
        self@.wf()
    }

    /// A drainer for the stream `origin` that has read nothing yet.
    pub fn new(origin: StreamOrigin) -> (d: Self)
        ensures
            d.wf(),
            d@ == DrainerView::start(origin),
    {
        StreamDrainer { origin, pending: Vec::new(), stopped: false }
    }

    /// Takes the next bytes of the stream and returns the updates to emit for
    /// them, in order.
    pub fn feed(&mut self, chunk: &[u8]) -> (out: Vec<CommandUpdate>)
        requires
            old(self).wf(),
        ensures
            final(self).wf(),
            (final(self)@, update_views(out@)) == old(self)@.feed(chunk@),
    {
        let mut out: Vec<CommandUpdate> = Vec::new();
        if self.stopped {
            return out;
        }
        let ghost start = self.pending@;
        let ghost origin = self.origin;
        proof {
            lemma_no_newline(start);
        }
        let mut i: usize = 0;
        while i < chunk.len()
            invariant
                i <= chunk.len(),
                start == old(self)@.pending,
                origin == old(self)@.origin,
                !old(self)@.stopped,
                self.origin == origin,
                !self.stopped,
                all_valid(complete_lines(start + chunk@.take(i as int))),
                update_views(out@) == line_updates(
                    origin,
                    complete_lines(start + chunk@.take(i as int)),
                ),
                self.pending@ == partial_line(start + chunk@.take(i as int)),
            decreases chunk.len() - i,
        {
            let b = chunk[i];
            let ghost done = start + chunk@.take(i as int);
            let ghost lines = complete_lines(done);
            proof {
                lemma_lines_push(done, b);
                assert(start + chunk@.take(i + 1) =~= done.push(b));
            }
            if b == NEWLINE {
                let mut line: Vec<u8> = Vec::new();
                std::mem::swap(&mut line, &mut self.pending);
                let ghost raw = line@;
                proof {
                    lemma_line_updates_concat(origin, lines, seq![raw]);
                    assert(lines.push(raw) =~= lines + seq![raw]);
                    assert(seq![raw].drop_first() =~= Seq::<Seq<u8>>::empty());
                    assert(line_updates(origin, Seq::<Seq<u8>>::empty()) =~= Seq::empty());
                }
                match decode_line(line) {
                    Some(text) => {
                        let update = CommandUpdate::NewLine(tag_line(self.origin, text));
                        out.push(update);
                    },
                    None => {
                        self.stopped = true;
                        proof {
                            let ext = done.push(b);
                            let rest = chunk@.skip(i + 1);
                            assert(ext + rest =~= start + chunk@);
                            lemma_lines_concat(ext, rest);
                            lemma_line_updates_concat(
                                origin,
                                complete_lines(ext),
                                complete_lines(partial_line(ext) + rest),
                            );
                        }
                        return out;
                    },
                }
            } else {
                self.pending.push(b);
            }
            i += 1;
        }
        proof {
            assert(chunk@.take(chunk.len() as int) =~= chunk@);
            lemma_partial_line_has_no_newline(start + chunk@);
        }
        out
    }

    /// The stream that this drainer reads.
    pub fn origin(&self) -> (origin: StreamOrigin)
        ensures
            origin == self@.origin,
    {
        self.origin
    }

    /// Whether the drainer has ended.
    pub fn is_stopped(&self) -> (stopped: bool)
        ensures
            stopped == self@.stopped,
    {
        self.stopped
    }

    /// Takes what arrived and returns the updates to emit for it, in order.
    pub fn handle(&mut self, event: DrainEvent) -> (out: Vec<CommandUpdate>)
        requires
            old(self).wf(),
        ensures
            final(self).wf(),
            (final(self)@, update_views(out@)) == old(self)@.handle(event@),
    {
        match event {
            DrainEvent::Chunk(bytes) => self.feed(bytes.as_slice()),
            _ => {
                self.close();
                let out: Vec<CommandUpdate> = Vec::new();
                out
            },
        }
    }

    /// Puts `updates` into the sink, in order, until the sink refuses one:
    /// the consumer is gone then, the drainer ends at once, and the rest is
    /// not sent. Returns how many updates the sink took. The drainer is as
    /// it was if that is all of them.
    pub fn emit(&mut self, updates: Vec<CommandUpdate>, sink: &UnboundedSender<CommandUpdate>) -> (taken:
        usize)
        requires
            old(self).wf(),
        ensures
            final(self).wf(),
            taken <= updates@.len(),
            taken == updates@.len() ==> final(self)@ == old(self)@,
            taken < updates@.len() ==> final(self)@ == old(self)@.close(),
    {
        let total = updates.len();
        let mut taken: usize = 0;
        for update in rest: updates
            invariant
                *self == *old(self),
                rest.seq().len() == total,
                taken == rest.index(),
        {
            if !send_update(sink, update) {
                self.close();
                return taken;
            }
            taken = taken + 1;
        }
        taken
    }

    /// Takes what arrived and puts the updates for it into the sink. Returns
    /// whether the drainer goes on: it has ended when the stream ended or
    /// failed, when a line was no text, or when the consumer is gone. With no
    /// update to send the sink is not asked.
    pub fn drain(&mut self, event: DrainEvent, sink: &UnboundedSender<CommandUpdate>) -> (running:
        bool)
        requires
            old(self).wf(),
        ensures
            final(self).wf(),
            final(self)@ == old(self)@.handle(event@).0 || final(self)@ == old(self)@.handle(
                event@,
            ).0.close(),
            old(self)@.handle(event@).1.len() == 0 ==> final(self)@ == old(self)@.handle(
                event@,
            ).0,
            running == !final(self)@.stopped,
    {
        let updates = self.handle(event);
        self.emit(updates, sink);
        !self.stopped
    }

    /// Ends the drainer: its stream ended or failed, or its consumer went
    /// away. The unfinished line is dropped.
    pub fn close(&mut self)
        ensures
            final(self).wf(),
            final(self)@ == old(self)@.close(),
    {
        self.pending = Vec::new();
        self.stopped = true;
    }
}

/// Every update stands for a valid line: the decoded line at the same place,
/// with the marker in front if it came from standard error.
pub proof fn lemma_line_updates_index(origin: StreamOrigin, lines: Seq<Seq<u8>>, i: int)
    requires
        0 <= i < line_updates(origin, lines).len(),
    ensures
        i < lines.len(),
        valid_utf8(lines[i]),
        line_updates(origin, lines)[i] == UpdateView::NewLine(
            line_text(origin, decode_utf8(lines[i])),
        ),
    decreases lines.len(),
{
    if i > 0 {
        let rest = lines.drop_first();
        lemma_line_updates_index(origin, rest, i - 1);
    }
}

/// A drainer keeps its unfinished line free of `\n`.
pub proof fn lemma_feed_keeps_wf(d: DrainerView, chunk: Seq<u8>)
    requires
        d.wf(),
    ensures
        d.feed(chunk).0.wf(),
{
    lemma_partial_line_has_no_newline(d.pending + chunk);
}

/// Feeding two chunks one after the other is feeding them as one chunk: the
/// drainer ends in the same state and emits the same updates.
pub proof fn lemma_feed_concat(d: DrainerView, a: Seq<u8>, b: Seq<u8>)
    ensures
        d.feed(a + b) == (d.feed(a).0.feed(b).0, d.feed(a).1 + d.feed(a).0.feed(b).1),
{
    if !d.stopped {
        let first = d.pending + a;
        assert(d.pending + (a + b) =~= first + b);
        lemma_lines_concat(first, b);
        lemma_line_updates_concat(
            d.origin,
            complete_lines(first),
            complete_lines(partial_line(first) + b),
        );
    }
}

/// However a stream is cut into chunks, the drainer ends in the same state
/// and emits the same updates as for the whole stream at once.
pub proof fn lemma_chunking_is_irrelevant(d: DrainerView, chunks: Seq<Seq<u8>>)
    requires
        d.wf(),
    ensures
        d.feed_all(chunks) == d.feed(chunks.flatten()),
    decreases chunks.len(),
{
    if chunks.len() == 0 {
        if !d.stopped {
            lemma_no_newline(d.pending);
        }
    } else {
        let rest = chunks.drop_first();
        lemma_feed_keeps_wf(d, chunks[0]);
        lemma_chunking_is_irrelevant(d.feed(chunks[0]).0, rest);
        lemma_feed_concat(d, chunks[0], rest.flatten());
    }
}

/// A fresh drainer that is given a stream in any chunks emits the updates of
/// the terminated lines of the stream, and keeps the unfinished rest back.
pub proof fn lemma_drainer_emits_the_lines_of_the_stream(
    origin: StreamOrigin,
    chunks: Seq<Seq<u8>>,
)
    ensures
        DrainerView::start(origin).feed_all(chunks).1 == stream_updates(origin, chunks.flatten()),
{
    let d = DrainerView::start(origin);
    lemma_chunking_is_irrelevant(d, chunks);
}

/// For a standard-output stream whose lines are valid UTF-8, the updates are
/// the stream split at each `\n`, one update per terminated line with the
/// decoded line as its text, in order. What follows the last `\n` gives no
/// update.
pub proof fn lemma_stdout_updates_are_the_lines(chunks: Seq<Seq<u8>>)
    requires
        all_valid(complete_lines(chunks.flatten())),
    ensures
        DrainerView::start(StreamOrigin::Stdout).feed_all(chunks).1 == complete_lines(
            chunks.flatten(),
        ).map_values(|line: Seq<u8>| UpdateView::NewLine(decode_utf8(line))),
{
    let lines = complete_lines(chunks.flatten());
    lemma_drainer_emits_the_lines_of_the_stream(StreamOrigin::Stdout, chunks);
    lemma_line_updates_of_valid(StreamOrigin::Stdout, lines);
}

/// Every update of a standard-error stream is a line that begins with the
/// marker; without the marker it is the decoded line of the stream at the
/// same place.
pub proof fn lemma_stderr_updates_carry_the_marker(chunks: Seq<Seq<u8>>, i: int)
    requires
        0 <= i < DrainerView::start(StreamOrigin::Stderr).feed_all(chunks).1.len(),
    ensures
        i < complete_lines(chunks.flatten()).len(),
        DrainerView::start(StreamOrigin::Stderr).feed_all(chunks).1[i] matches UpdateView::NewLine(
            text,
        ) && text.take(stderr_marker().len() as int) == stderr_marker() && text.skip(
            stderr_marker().len() as int,
        ) == decode_utf8(complete_lines(chunks.flatten())[i]),
{
    let lines = complete_lines(chunks.flatten());
    lemma_drainer_emits_the_lines_of_the_stream(StreamOrigin::Stderr, chunks);
    lemma_line_updates_index(StreamOrigin::Stderr, lines, i);
}

/// A drainer emits lines only: the terminal update of a command never
/// comes from a drainer.
pub proof fn lemma_drainer_emits_only_lines(d: DrainerView, chunk: Seq<u8>, i: int)
    requires
        0 <= i < d.feed(chunk).1.len(),
    ensures
        d.feed(chunk).1[i] is NewLine,
{
    lemma_line_updates_index(d.origin, complete_lines(d.pending + chunk), i);
}

} // verus!
