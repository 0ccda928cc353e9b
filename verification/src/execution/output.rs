//! The bounded text channel between a running execution and its reader.
//!
//! Text is gathered in `pending` until it fills a chunk or is flushed, and then
//! moves to `ready`, from where the reader takes it. Both together never hold
//! more than [`OUTPUT_BUFFER_BYTES`]. An emission that finds no room is answered
//! [`EmitResult::Blocked`]: the rest of its text waits in the backlog, and so does a
//! flush behind it. Whenever the reader has taken a chunk or the channel has ended, the
//! emitter asks again with [`OutputSink::resume`], until it gets the final answer.
use std::collections::VecDeque;

use vstd::prelude::*;

use crate::text;
use crate::text::{byte_count, split_prefix};

verus! {

pub const OUTPUT_CHUNK_BYTES: usize = 16384;

pub const OUTPUT_BUFFER_BYTES: usize = 262144;

/// What became of emitted text.
#[derive(Clone, Copy, Debug, PartialEq, Eq, Structural)]
pub enum EmitResult {
    Written,
    Disconnected,
    Cancelled,
    Stopped,
    Finished,
    /// The text waits for room.
    Blocked,
}

/// What the reader finds.
#[derive(Debug, PartialEq, Eq)]
pub enum ChunkPoll {
    Chunk(String),
    Pending,
    Ended,
}

/// Both ends of one output channel.
pub struct OutputSink {
    ready: VecDeque<String>,
    pending: String,
    backlog: String,
    flush_due: bool,
    queued: usize,
    disconnected: bool,
    cancelled: bool,
    stopped: bool,
    finished: bool,
}

/// The contents of a channel.
#[verifier::ext_equal]
pub struct OutputView {
    pub ready: Seq<Seq<char>>,
    pub pending: Seq<char>,
    /// The text of an emission that waits for room.
    pub backlog: Seq<char>,
    /// A flush waits behind that text.
    pub flush_due: bool,
    pub disconnected: bool,
    pub cancelled: bool,
    pub stopped: bool,
    pub finished: bool,
}

/// The chunks one behind the other.
pub open spec fn joined(chunks: Seq<Seq<char>>) -> Seq<char>
    decreases chunks.len(),
{
    if chunks.len() == 0 {
        Seq::empty()
    } else {
        joined(chunks.drop_last()) + chunks.last()
    }
}

proof fn lemma_joined_push(chunks: Seq<Seq<char>>, chunk: Seq<char>)
    ensures
        joined(chunks.push(chunk)) == joined(chunks) + chunk,
{
    assert(chunks.push(chunk).drop_last() =~= chunks);
}

proof fn lemma_joined_first(chunks: Seq<Seq<char>>)
    requires
        chunks.len() > 0,
    ensures
        joined(chunks) == chunks[0] + joined(chunks.skip(1)),
    decreases chunks.len(),
{
    if chunks.len() == 1 {
        assert(chunks.drop_last() =~= Seq::<Seq<char>>::empty());
        assert(chunks.skip(1) =~= Seq::<Seq<char>>::empty());
        assert(joined(chunks) =~= chunks[0] + joined(chunks.skip(1)));
    } else {
        lemma_joined_first(chunks.drop_last());
        assert(chunks.drop_last().skip(1) =~= chunks.skip(1).drop_last());
        assert(joined(chunks) =~= chunks[0] + joined(chunks.skip(1)));
    }
}

impl OutputView {
    pub open spec fn empty() -> OutputView {
        OutputView {
            ready: Seq::empty(),
            pending: Seq::empty(),
            backlog: Seq::empty(),
            flush_due: false,
            disconnected: false,
            cancelled: false,
            stopped: false,
            finished: false,
        }
    }

    /// What the next emission is answered.
    pub open spec fn emit_result(self) -> EmitResult {
        if self.disconnected {
            EmitResult::Disconnected
        } else if self.stopped {
            EmitResult::Stopped
        } else if self.cancelled {
            EmitResult::Cancelled
        } else if self.finished {
            EmitResult::Finished
        } else {
            EmitResult::Written
        }
    }

    /// The text that counts against the buffer.
    pub open spec fn queue(self) -> Seq<char> {
        joined(self.ready) + self.pending
    }

    /// All text handed over and not yet taken by the reader.
    pub open spec fn text(self) -> Seq<char> {
        self.queue() + self.backlog
    }

    pub open spec fn queued_bytes(self) -> nat {
        text::byte_len(self.queue())
    }

    /// The size limits of the channel.
    pub open spec fn limited(self) -> bool {
        &&& forall|i: int|
            0 <= i < self.ready.len() ==> 0 < text::byte_len(#[trigger] self.ready[i])
                <= OUTPUT_CHUNK_BYTES
        &&& text::byte_len(self.pending) <= OUTPUT_CHUNK_BYTES
        &&& self.queued_bytes() <= OUTPUT_BUFFER_BYTES
    }

    /// The limits hold, and an emission waits only at a channel that has not ended.
    pub open spec fn bounded(self) -> bool {
        &&& self.limited()
        &&& self.blocked() ==> self.emit_result() is Written
        &&& self.flush_due ==> self.blocked()
    }

    /// An emission waits.
    pub open spec fn blocked(self) -> bool {
        self.backlog.len() > 0
    }

    /// The next character that waits finds no room.
    pub open spec fn full(self) -> bool {
        &&& self.pending.len() == 0
        &&& self.blocked()
        &&& self.queued_bytes() + text::char_bytes(self.backlog[0]) > OUTPUT_BUFFER_BYTES
    }

    /// Makes the pending text available to the reader: as much as fits joins the
    /// last ready chunk, the rest becomes a chunk of its own.
    pub open spec fn published(self) -> OutputView {
        if self.pending.len() == 0 {
            self
        } else {
            let count = if self.ready.len() > 0 {
                text::prefix_chars(self.pending, OUTPUT_CHUNK_BYTES - text::byte_len(self.ready.last()))
            } else {
                0
            };
            let joined_last = if count > 0 {
                self.ready.drop_last().push(self.ready.last() + self.pending.take(count))
            } else {
                self.ready
            };
            OutputView {
                ready: if count < self.pending.len() {
                    joined_last.push(self.pending.skip(count))
                } else {
                    joined_last
                },
                pending: Seq::empty(),
                ..self
            }
        }
    }

    /// The number of waiting characters that fit in the chunk being gathered and
    /// in the buffer.
    pub open spec fn admissible(self) -> int {
        let chunk_space = OUTPUT_CHUNK_BYTES - text::byte_len(self.pending);
        let buffer_space = OUTPUT_BUFFER_BYTES - self.queued_bytes();
        text::prefix_chars(
            self.backlog,
            if chunk_space < buffer_space {
                chunk_space
            } else {
                buffer_space
            },
        )
    }

    /// Moves the admissible characters to the chunk being gathered.
    pub open spec fn gathered(self) -> OutputView {
        let count = self.admissible();
        let gathered = OutputView {
            pending: self.pending + self.backlog.take(count),
            backlog: self.backlog.skip(count),
            ..self
        };
        if text::byte_len(gathered.pending) == OUTPUT_CHUNK_BYTES {
            gathered.published()
        } else {
            gathered
        }
    }

    /// Moves waiting text into the channel, chunk by chunk, as far as there is room.
    pub open spec fn admitted(self) -> OutputView
        decreases self.backlog.len(), self.pending.len(),
    {
        if self.backlog.len() == 0 {
            self
        } else if 0 < self.admissible() <= self.backlog.len() {
            self.gathered().admitted()
        } else if self.pending.len() > 0 {
            self.published().admitted()
        } else {
            self
        }
    }

    /// The channel with more text behind that which waits.
    pub open spec fn holding(self, text: Seq<char>) -> OutputView {
        OutputView { backlog: self.backlog + text, ..self }
    }

    /// The channel after `text` was handed over. It enters as far as there is room, and
    /// the rest waits; where text waits already, it comes behind. A channel that has
    /// ended takes no text.
    pub open spec fn extended(self, text: Seq<char>) -> OutputView {
        if !(self.emit_result() is Written) {
            self
        } else if self.blocked() {
            self.holding(text)
        } else {
            self.holding(text).admitted()
        }
    }

    /// The channel after a flush, which waits where text does.
    pub open spec fn flushed(self) -> OutputView {
        if !(self.emit_result() is Written) {
            self
        } else if self.blocked() {
            OutputView { flush_due: true, ..self }
        } else {
            self.published()
        }
    }

    /// The channel after the emission that waits has asked again: its text enters as far
    /// as there is room now, and a flush behind it is carried out once all of it has.
    pub open spec fn resumed(self) -> OutputView {
        let admitted = self.admitted();
        if self.flush_due && !admitted.blocked() {
            OutputView { flush_due: false, ..admitted }.published()
        } else {
            admitted
        }
    }

    /// The answer to an emission or a flush that left the channel like this: one that is
    /// not through waits.
    pub open spec fn answered(self) -> EmitResult {
        if self.blocked() {
            EmitResult::Blocked
        } else {
            self.emit_result()
        }
    }

    /// The channel after `text` was handed over.
    pub open spec fn extended_by(self, before: OutputView, text: Seq<char>) -> bool {
        &&& self == before.extended(text)
        &&& self.emit_result() == before.emit_result()
    }

    /// The channel without any text.
    pub open spec fn discarded(self) -> OutputView {
        OutputView {
            ready: Seq::empty(),
            pending: Seq::empty(),
            backlog: Seq::empty(),
            flush_due: false,
            ..self
        }
    }

    /// The channel after its text was ended: what had entered is available to the reader,
    /// and what waits is dropped.
    pub open spec fn closed(self) -> OutputView {
        OutputView { backlog: Seq::empty(), flush_due: false, ..self.published() }
    }
}

proof fn lemma_published(view: OutputView)
    requires
        forall|i: int|
            0 <= i < view.ready.len() ==> 0 < text::byte_len(#[trigger] view.ready[i])
                <= OUTPUT_CHUNK_BYTES,
        text::byte_len(view.pending) <= OUTPUT_CHUNK_BYTES,
    ensures
        view.published().queue() == view.queue(),
        view.published().text() == view.text(),
        view.published().backlog == view.backlog,
        view.published().flush_due == view.flush_due,
        view.published().pending.len() == 0,
        view.published().emit_result() == view.emit_result(),
        forall|i: int|
            0 <= i < view.published().ready.len() ==> 0 < text::byte_len(
                #[trigger] view.published().ready[i],
            ) <= OUTPUT_CHUNK_BYTES,
{
    let published = view.published();
    if view.pending.len() > 0 {
        let last = view.ready.last();
        let room = OUTPUT_CHUNK_BYTES - text::byte_len(last);
        let count = if view.ready.len() > 0 {
            text::prefix_chars(view.pending, room)
        } else {
            0
        };
        if view.ready.len() > 0 {
            assert(text::byte_len(view.ready[view.ready.len() - 1]) <= OUTPUT_CHUNK_BYTES);
            text::lemma_prefix_chars(view.pending, room);
        }
        let head = view.pending.take(count);
        let tail = view.pending.skip(count);
        assert(head + tail =~= view.pending);
        text::lemma_byte_len_concat(head, tail);
        text::lemma_byte_len_at_least_chars(tail);
        let middle = if count > 0 {
            view.ready.drop_last().push(last + head)
        } else {
            view.ready
        };
        if count > 0 {
            text::lemma_byte_len_concat(last, head);
            lemma_joined_push(view.ready.drop_last(), last + head);
            assert(joined(middle) =~= joined(view.ready) + head);
            assert forall|i: int| 0 <= i < middle.len() implies 0 < text::byte_len(#[trigger] middle[i])
                <= OUTPUT_CHUNK_BYTES by {
                if i < middle.len() - 1 {
                    assert(middle[i] == view.ready[i]);
                } else {
                    assert(text::byte_len(view.ready[view.ready.len() - 1]) > 0);
                }
            }
        } else {
            assert(head =~= Seq::<char>::empty());
            assert(joined(middle) =~= joined(view.ready) + head);
        }
        if count < view.pending.len() {
            lemma_joined_push(middle, tail);
        } else {
            assert(tail =~= Seq::<char>::empty());
        }
        assert(published.queue() =~= view.queue());
    }
}

proof fn lemma_gathered(view: OutputView)
    requires
        forall|i: int|
            0 <= i < view.ready.len() ==> 0 < text::byte_len(#[trigger] view.ready[i])
                <= OUTPUT_CHUNK_BYTES,
        text::byte_len(view.pending) <= OUTPUT_CHUNK_BYTES,
        view.queued_bytes() <= OUTPUT_BUFFER_BYTES,
    ensures
        0 <= view.admissible() <= view.backlog.len(),
        view.gathered().text() == view.text(),
        view.gathered().emit_result() == view.emit_result(),
        text::byte_len(view.gathered().pending) <= OUTPUT_CHUNK_BYTES,
        view.gathered().queued_bytes() <= OUTPUT_BUFFER_BYTES,
        view.gathered().backlog == view.backlog.skip(view.admissible()),
        forall|i: int|
            0 <= i < view.gathered().ready.len() ==> 0 < text::byte_len(
                #[trigger] view.gathered().ready[i],
            ) <= OUTPUT_CHUNK_BYTES,
{
    let chunk_space = OUTPUT_CHUNK_BYTES - text::byte_len(view.pending);
    let buffer_space = OUTPUT_BUFFER_BYTES - view.queued_bytes();
    let space = if chunk_space < buffer_space {
        chunk_space
    } else {
        buffer_space
    };
    text::lemma_prefix_chars(view.backlog, space);
    let count = view.admissible();
    let head = view.backlog.take(count);
    let gathered = OutputView {
        pending: view.pending + head,
        backlog: view.backlog.skip(count),
        ..view
    };
    assert(head + view.backlog.skip(count) =~= view.backlog);
    text::lemma_byte_len_concat(view.pending, head);
    assert(gathered.queue() =~= view.queue() + head);
    text::lemma_byte_len_concat(view.queue(), head);
    assert(gathered.text() =~= view.text());
    lemma_published(gathered);
    text::lemma_byte_len_at_least_chars(Seq::<char>::empty());
}

proof fn lemma_admitted(view: OutputView)
    requires
        view.limited(),
    ensures
        view.admitted().limited(),
        view.admitted().text() == view.text(),
        view.admitted().blocked() ==> view.admitted().full(),
        view.admitted().flush_due == view.flush_due,
    decreases view.backlog.len(), view.pending.len(),
{
    if view.blocked() {
        lemma_gathered(view);
        lemma_published(view);
        text::lemma_byte_len_at_least_chars(Seq::<char>::empty());
        if view.admissible() > 0 {
            lemma_admitted(view.gathered());
        } else if view.pending.len() > 0 {
            lemma_admitted(view.published());
        } else {
            let buffer_space = OUTPUT_BUFFER_BYTES - view.queued_bytes();
            let space = if OUTPUT_CHUNK_BYTES < buffer_space {
                OUTPUT_CHUNK_BYTES as int
            } else {
                buffer_space
            };
            text::lemma_prefix_chars(view.backlog, space);
            assert(view.backlog.take(1) =~= seq![view.backlog[0]]);
            text::lemma_byte_len_single(view.backlog[0]);
            text::lemma_char_bytes(view.backlog[0]);
            assert(view.full());
        }
    }
}

/// What enters a channel does not end it.
proof fn lemma_admitted_flags(view: OutputView)
    ensures
        view.admitted().disconnected == view.disconnected,
        view.admitted().cancelled == view.cancelled,
        view.admitted().stopped == view.stopped,
        view.admitted().finished == view.finished,
        view.admitted().flush_due == view.flush_due,
        view.admitted().admitted() == view.admitted(),
    decreases view.backlog.len(), view.pending.len(),
{
    if view.blocked() {
        if 0 < view.admissible() <= view.backlog.len() {
            lemma_admitted_flags(view.gathered());
        } else if view.pending.len() > 0 {
            lemma_admitted_flags(view.published());
        }
    }
}

/// Text that is handed over in two parts enters as it would in one.
proof fn lemma_admitted_more(view: OutputView, more: Seq<char>)
    ensures
        view.holding(more).admitted() == if view.admitted().blocked() {
            view.admitted().holding(more)
        } else {
            view.admitted().holding(more).admitted()
        },
    decreases view.backlog.len(), view.pending.len(),
{
    let longer = view.holding(more);
    if !view.blocked() {
    } else {
        let chunk_space = OUTPUT_CHUNK_BYTES - text::byte_len(view.pending);
        let buffer_space = OUTPUT_BUFFER_BYTES - view.queued_bytes();
        let space = if chunk_space < buffer_space {
            chunk_space
        } else {
            buffer_space
        };
        assert(longer.queue() == view.queue());
        let count = view.admissible();
        text::lemma_prefix_chars_concat(view.backlog, more, space);
        if count == 0 {
            assert(longer.admissible() == 0);
            if view.pending.len() > 0 {
                lemma_admitted_more(view.published(), more);
                assert(longer.published() =~= view.published().holding(more));
            }
        } else if count < view.backlog.len() {
            assert(longer.admissible() == count);
            assert(longer.backlog.take(count) =~= view.backlog.take(count));
            assert(longer.backlog.skip(count) =~= view.backlog.skip(count) + more);
            assert(longer.gathered() =~= view.gathered().holding(more));
            lemma_admitted_more(view.gathered(), more);
        } else {
            lemma_rest_fits(view, more, space);
        }
    }
}

proof fn lemma_rest_fits(view: OutputView, more: Seq<char>, space: int)
    requires
        view.blocked(),
        view.admissible() == view.backlog.len(),
        space == ({
            let chunk_space = OUTPUT_CHUNK_BYTES - text::byte_len(view.pending);
            let buffer_space = OUTPUT_BUFFER_BYTES - view.queued_bytes();
            if chunk_space < buffer_space {
                chunk_space
            } else {
                buffer_space
            }
        }),
    ensures
        view.holding(more).admitted() == view.admitted().holding(more).admitted(),
        !view.admitted().blocked(),
{
    let longer = view.holding(more);
    let count = view.backlog.len() as int;
    let next = text::prefix_chars(more, space - text::byte_len(view.backlog));
    let entered = OutputView {
        pending: view.pending + view.backlog,
        backlog: Seq::empty(),
        ..view
    };
    assert(longer.queue() == view.queue());
    text::lemma_prefix_chars_concat(view.backlog, more, space);
    text::lemma_prefix_chars_range(more, space - text::byte_len(view.backlog));
    assert(longer.admissible() == count + next);
    assert(view.backlog.take(count) =~= view.backlog);
    assert(view.backlog.skip(count) =~= Seq::<char>::empty());
    assert(longer.backlog.take(count + next) =~= view.backlog + more.take(next));
    assert(longer.backlog.skip(count + next) =~= more.skip(next));
    assert(view.pending + (view.backlog + more.take(next)) =~= (view.pending + view.backlog)
        + more.take(next));
    text::lemma_byte_len_concat(view.pending, view.backlog);
    assert(entered.queue() =~= view.queue() + view.backlog);
    text::lemma_byte_len_concat(view.queue(), view.backlog);
    assert(Seq::<char>::empty() + more =~= more);
    let full = text::byte_len(entered.pending) == OUTPUT_CHUNK_BYTES;
    assert(view.gathered() == if full {
        entered.published()
    } else {
        entered
    });
    assert(view.gathered().admitted() == view.gathered());
    assert(view.admitted() == view.gathered());
    let behind = entered.holding(more);
    assert(behind.queue() == entered.queue());
    if full {
        assert(next == 0);
        assert(more.take(0) =~= Seq::<char>::empty());
        assert(more.skip(0) =~= more);
        assert(entered.pending + Seq::<char>::empty() =~= entered.pending);
        assert(longer.gathered() =~= entered.published().holding(more));
    } else if next == 0 {
        assert(more.take(0) =~= Seq::<char>::empty());
        assert(more.skip(0) =~= more);
        assert(entered.pending + Seq::<char>::empty() =~= entered.pending);
        assert(longer.gathered() =~= behind);
    } else {
        assert(behind.backlog == more);
        assert(behind.admissible() == next);
        assert(longer.gathered() =~= behind.gathered());
    }
}

/// Text that is handed over in two parts is handed over as it would be in one.
pub proof fn law_parts_join(output: OutputView, first: Seq<char>, second: Seq<char>)
    ensures
        output.extended(first).extended(second) == output.extended(first + second),
        output.extended(first).emit_result() == output.emit_result(),
        output.extended(first + second).emit_result() == output.emit_result(),
{
    if output.emit_result() is Written {
        lemma_admitted_flags(output.holding(first));
        lemma_admitted_flags(output.holding(first + second));
        if output.blocked() {
            assert(output.holding(first).holding(second) =~= output.holding(first + second));
        } else {
            lemma_admitted_more(output.holding(first), second);
            assert(output.holding(first).holding(second) =~= output.holding(first + second));
        }
    }
}

/// To hand over nothing changes nothing.
pub proof fn law_nothing_is_added(output: OutputView)
    ensures
        output.extended(Seq::empty()) == output,
{
    assert(output.holding(Seq::empty()) =~= output);
}

/// Text reaches the reader unchanged and in order, within the limits: what is handed over
/// comes behind all that was, what is read is what comes first, and nothing is lost while
/// it waits.
pub proof fn law_text_passes_unchanged(output: OutputView, text: Seq<char>)
    requires
        output.bounded(),
        output.emit_result() is Written,
    ensures
        output.extended(text).text() == output.text() + text,
        output.extended(text).bounded(),
        output.flushed().text() == output.text(),
        output.flushed().bounded(),
        output.resumed().text() == output.text(),
        output.resumed().bounded(),
        output.ready.len() > 0 ==> ({
            let after = OutputView { ready: output.ready.skip(1), ..output };
            output.ready[0] + after.text() == output.text() && after.bounded()
        }),
{
    lemma_extended(output, text);
    lemma_flushed(output);
    lemma_resumed(output);
    if output.ready.len() > 0 {
        lemma_taken(output);
    }
}

/// An emission waits only where there is no room for its next character, and asks again
/// in vain only as long as that is so.
pub proof fn law_waits_only_without_room(output: OutputView, text: Seq<char>)
    requires
        output.bounded(),
    ensures
        !output.blocked() && output.extended(text).blocked() ==> output.extended(text).full(),
        output.resumed().blocked() ==> output.resumed().full(),
{
    assert(output.holding(text).queue() == output.queue());
    lemma_admitted(output.holding(text));
    lemma_admitted(output);
    lemma_resumed(output);
}

/// A flush makes all text available to the reader, at once or when the emission that it
/// waits behind is through.
pub proof fn law_flush_is_carried_out(output: OutputView)
    requires
        output.bounded(),
        output.emit_result() is Written,
    ensures
        !output.blocked() ==> output.flushed().pending.len() == 0,
        output.flushed().blocked() && !output.flushed().resumed().blocked()
            ==> output.flushed().resumed().pending.len() == 0,
        output.flushed().blocked() && output.flushed().resumed().blocked()
            ==> output.flushed().resumed().flush_due,
{
    lemma_published(output);
    let flushed = output.flushed();
    if output.blocked() {
        assert(flushed.queue() == output.queue());
        lemma_admitted(flushed);
        lemma_published(OutputView { flush_due: false, ..flushed.admitted() });
    }
}

proof fn lemma_extended(output: OutputView, text: Seq<char>)
    requires
        output.bounded(),
    ensures
        output.extended(text).bounded(),
        output.extended(text).emit_result() == output.emit_result(),
        output.emit_result() is Written ==> output.extended(text).text() == output.text() + text,
{
    let holding = output.holding(text);
    assert(holding.queue() == output.queue());
    assert(holding.text() =~= output.text() + text);
    if output.emit_result() is Written && !output.blocked() {
        lemma_admitted(holding);
        lemma_admitted_flags(holding);
    }
}

proof fn lemma_flushed(output: OutputView)
    requires
        output.bounded(),
    ensures
        output.flushed().bounded(),
        output.flushed().emit_result() == output.emit_result(),
        output.flushed().text() == output.text(),
{
    lemma_published(output);
    text::lemma_byte_len_at_least_chars(Seq::<char>::empty());
    if output.blocked() {
        assert(output.flushed().queue() == output.queue());
    }
}

proof fn lemma_resumed(output: OutputView)
    requires
        output.bounded(),
    ensures
        output.resumed().bounded(),
        output.resumed().emit_result() == output.emit_result(),
        output.resumed().text() == output.text(),
        output.resumed().blocked() == output.admitted().blocked(),
{
    let admitted = output.admitted();
    lemma_admitted(output);
    lemma_admitted_flags(output);
    let settled = OutputView { flush_due: false, ..admitted };
    assert(settled.queue() == admitted.queue());
    lemma_published(settled);
    text::lemma_byte_len_at_least_chars(Seq::<char>::empty());
}

proof fn lemma_taken(output: OutputView)
    requires
        output.bounded(),
        output.ready.len() > 0,
    ensures
        ({
            let taken = OutputView { ready: output.ready.skip(1), ..output };
            &&& taken.bounded()
            &&& output.ready[0] + taken.text() == output.text()
            &&& output.queued_bytes() == text::byte_len(output.ready[0]) + taken.queued_bytes()
        }),
{
    let taken = OutputView { ready: output.ready.skip(1), ..output };
    lemma_joined_first(output.ready);
    assert(output.queue() =~= output.ready[0] + taken.queue());
    assert(output.text() =~= output.ready[0] + taken.text());
    text::lemma_byte_len_concat(output.ready[0], taken.queue());
    assert forall|i: int| 0 <= i < taken.ready.len() implies 0 < text::byte_len(
        #[trigger] taken.ready[i],
    ) <= OUTPUT_CHUNK_BYTES by {
        assert(taken.ready[i] == output.ready[i + 1]);
    }
}

/// A channel that is finished or cancelled still gives the reader all that had entered it;
/// one that is stopped or has lost its reader gives nothing more. In each case what waits
/// is dropped.
pub proof fn law_end_keeps_what_had_entered(output: OutputView)
    requires
        output.bounded(),
    ensures
        (OutputView { finished: true, ..output.closed() }).text() == output.queue(),
        (OutputView { cancelled: true, ..output.closed() }).text() == output.queue(),
        (OutputView { stopped: true, ..output.discarded() }).text().len() == 0,
        (OutputView { disconnected: true, ..output.discarded() }).text().len() == 0,
        output.published().pending.len() == 0,
{
    lemma_published(output);
    let finished = OutputView { finished: true, ..output.closed() };
    assert(finished.queue() == output.published().queue());
    assert(finished.text() =~= output.queue());
    let cancelled = OutputView { cancelled: true, ..output.closed() };
    assert(cancelled.queue() == output.published().queue());
    assert(cancelled.text() =~= output.queue());
    assert(output.discarded().queue() =~= Seq::<char>::empty());
    assert((OutputView { stopped: true, ..output.discarded() }).queue() =~= Seq::<char>::empty());
    assert((OutputView { disconnected: true, ..output.discarded() }).queue()
        =~= Seq::<char>::empty());
}

/// An emission that waits when the channel ends is answered what ended it.
pub proof fn law_end_answers_what_waits(output: OutputView)
    requires
        output.bounded(),
        output.emit_result() is Written,
    ensures
        (OutputView { finished: true, ..output.closed() }).resumed().answered() is Finished,
        (OutputView { cancelled: true, ..output.closed() }).resumed().answered() is Cancelled,
        (OutputView { stopped: true, ..output.discarded() }).resumed().answered() is Stopped,
        (OutputView {
            disconnected: true,
            ..output.discarded()
        }).resumed().answered() is Disconnected,
{
}

impl View for OutputSink {
    type V = OutputView;

    closed spec fn view(&self) -> OutputView {
        OutputView {
            ready: self.ready@.map_values(|chunk: String| chunk@),
            pending: self.pending@,
            backlog: self.backlog@,
            flush_due: self.flush_due,
            disconnected: self.disconnected,
            cancelled: self.cancelled,
            stopped: self.stopped,
            finished: self.finished,
        }
    }
}

/// A new channel, without text.
pub fn channel() -> (sink: OutputSink)
    ensures
        sink.well_formed(),
        sink@ == OutputView::empty(),
{
    let sink = OutputSink {
        ready: VecDeque::new(),
        pending: String::new(),
        backlog: String::new(),
        flush_due: false,
        queued: 0,
        disconnected: false,
        cancelled: false,
        stopped: false,
        finished: false,
    };
    assert(sink@ =~= OutputView::empty());
    assert(sink@.queue() =~= Seq::<char>::empty());
    sink
}

impl OutputSink {
    /// The recorded size is that of the queued text, and the limits hold.
    pub closed spec fn well_formed(&self) -> bool {
        &&& self@.bounded()
        &&& self.queued == self@.queued_bytes()
    }

    pub proof fn lemma_bounded(&self)
        requires
            self.well_formed(),
        ensures
            self@.bounded(),
    {
    }

    fn emit_result(&self) -> (result: EmitResult)
        ensures
            result == self@.emit_result(),
    {
        if self.disconnected {
            EmitResult::Disconnected
        } else if self.stopped {
            EmitResult::Stopped
        } else if self.cancelled {
            EmitResult::Cancelled
        } else if self.finished {
            EmitResult::Finished
        } else {
            EmitResult::Written
        }
    }

    fn publish_pending(&mut self)
        requires
            forall|i: int|
                0 <= i < old(self)@.ready.len() ==> 0 < text::byte_len(#[trigger] old(self)@.ready[i])
                    <= OUTPUT_CHUNK_BYTES,
            text::byte_len(old(self)@.pending) <= OUTPUT_CHUNK_BYTES,
        ensures
            final(self)@ == old(self)@.published(),
            final(self).queued == old(self).queued,
    {
        let ghost before = self@;
        if self.pending.as_str().is_empty() {
            return ;
        }
        let mut rest = String::new();
        std::mem::swap(&mut rest, &mut self.pending);
        match self.ready.pop_back() {
            Some(mut chunk) => {
                proof {
                    assert(before.ready.last() == chunk@);
                    assert(text::byte_len(before.ready[before.ready.len() - 1]) <= OUTPUT_CHUNK_BYTES);
                    text::lemma_prefix_chars(
                        rest@,
                        OUTPUT_CHUNK_BYTES - text::byte_len(before.ready.last()),
                    );
                }
                let room: usize = OUTPUT_CHUNK_BYTES - byte_count(chunk.as_str());
                let parts = split_prefix(rest.as_str(), room);
                chunk.push_str(parts.0);
                proof {
                    assert(rest@ == before.pending);
                    assert(parts.0@ == before.pending.take(text::prefix_chars(before.pending, room as int)));
                    if text::prefix_chars(before.pending, room as int) == 0 {
                        assert(chunk@ =~= before.ready.last());
                    }
                }
                self.ready.push_back(chunk);
                if !parts.1.is_empty() {
                    self.ready.push_back(parts.1.to_owned());
                }
            },
            None => {
                self.ready.push_back(rest);
                assert(before.pending.skip(0) =~= before.pending);
            },
        }
        assert(self@ =~~= before.published());
    }

    fn take_in(&mut self)
        requires
            old(self)@.limited(),
            old(self).queued == old(self)@.queued_bytes(),
        ensures
            final(self)@ == old(self)@.admitted(),
            final(self)@.limited(),
            final(self).queued == final(self)@.queued_bytes(),
        decreases old(self)@.backlog.len(), old(self)@.pending.len(),
    {
        let ghost before = self@;
        proof {
            lemma_admitted(before);
            lemma_gathered(before);
            lemma_published(before);
            text::lemma_byte_len_at_least_chars(Seq::<char>::empty());
        }
        if self.backlog.as_str().is_empty() {
            return ;
        }
        let chunk_space: usize = OUTPUT_CHUNK_BYTES - byte_count(self.pending.as_str());
        let buffer_space: usize = OUTPUT_BUFFER_BYTES - self.queued;
        let space: usize = if chunk_space < buffer_space {
            chunk_space
        } else {
            buffer_space
        };
        let parts = split_prefix(self.backlog.as_str(), space);
        if !parts.0.is_empty() {
            let count: usize = byte_count(parts.0);
            let rest = parts.1.to_owned();
            proof {
                let head = before.backlog.take(before.admissible());
                text::lemma_prefix_chars(before.backlog, space as int);
                assert((before.queue() + head) =~= joined(before.ready) + (before.pending + head));
                text::lemma_byte_len_concat(before.queue(), head);
                text::lemma_byte_len_concat(before.pending, head);
            }
            self.pending.push_str(parts.0);
            self.queued = self.queued + count;
            self.backlog = rest;
            let ghost gathered = self@;
            proof {
                let count = before.admissible();
                assert(gathered =~~= (OutputView {
                    pending: before.pending + before.backlog.take(count),
                    backlog: before.backlog.skip(count),
                    ..before
                }));
                lemma_published(gathered);
            }
            if byte_count(self.pending.as_str()) == OUTPUT_CHUNK_BYTES {
                self.publish_pending();
            }
            self.take_in();
        } else if !self.pending.as_str().is_empty() {
            self.publish_pending();
            self.take_in();
        }
    }

    /// What an emission or a flush that is through, or waits, is answered.
    fn answered(&self) -> (result: EmitResult)
        ensures
            result == self@.answered(),
    {
        if self.backlog.as_str().is_empty() {
            self.emit_result()
        } else {
            EmitResult::Blocked
        }
    }

    /// Hands text over. On a channel that has ended the text is dropped; else it
    /// enters the channel as far as there is room, and the rest waits.
    pub fn emit(&mut self, text: &str) -> (result: EmitResult)
        requires
            old(self).well_formed(),
        ensures
            final(self).well_formed(),
            final(self)@.extended_by(old(self)@, text@),
            result == if text@.len() == 0 {
                old(self)@.emit_result()
            } else {
                final(self)@.answered()
            },
            !(old(self)@.emit_result() is Written) ==> result == old(self)@.emit_result(),
    {
        let ghost before = self@;
        proof {
            lemma_extended(before, text@);
            law_nothing_is_added(before);
        }
        if text.is_empty() {
            assert(text@ =~= Seq::<char>::empty());
            return self.emit_result();
        }
        if self.emit_result() == EmitResult::Written {
            let waits = self.blocked();
            self.backlog.push_str(text);
            proof {
                assert(self@ =~~= before.holding(text@));
                assert(self@.queue() == before.queue());
            }
            if !waits {
                self.take_in();
            }
        }
        self.answered()
    }

    /// Whether an emission waits for room.
    pub fn blocked(&self) -> (result: bool)
        ensures
            result == self@.blocked(),
    {
        !self.backlog.as_str().is_empty()
    }

    /// Lets the text that waits enter the channel as far as there is room now, and gives
    /// the final answer once all of it has, or once the channel has ended.
    pub fn resume(&mut self) -> (result: EmitResult)
        requires
            old(self).well_formed(),
        ensures
            final(self).well_formed(),
            final(self)@ == old(self)@.resumed(),
            result == final(self)@.answered(),
            final(self)@.emit_result() == old(self)@.emit_result(),
    {
        let ghost before = self@;
        proof {
            lemma_resumed(before);
            lemma_admitted(before);
        }
        self.take_in();
        if self.flush_due && !self.blocked() {
            let ghost admitted = self@;
            self.flush_due = false;
            proof {
                let settled = OutputView { flush_due: false, ..admitted };
                assert(self@ =~~= settled);
                assert(settled.queue() == admitted.queue());
                lemma_published(settled);
            }
            self.publish_pending();
        }
        self.answered()
    }

    /// Makes gathered text available to the reader, behind what waits.
    pub fn flush(&mut self) -> (result: EmitResult)
        requires
            old(self).well_formed(),
        ensures
            final(self).well_formed(),
            final(self)@ == old(self)@.flushed(),
            result == final(self)@.answered(),
            final(self)@.emit_result() == old(self)@.emit_result(),
            !(old(self)@.emit_result() is Written) ==> result == old(self)@.emit_result(),
            result is Written ==> final(self)@.pending.len() == 0,
    {
        let ghost before = self@;
        proof {
            lemma_flushed(before);
            lemma_published(before);
        }
        if self.emit_result() == EmitResult::Written {
            if self.blocked() {
                self.flush_due = true;
                assert(self@ =~~= (OutputView { flush_due: true, ..before }));
            } else {
                self.publish_pending();
            }
        }
        self.answered()
    }

    /// Ends the channel for the emitter; the reader still gets the queued text.
    pub fn request_cancel(&mut self)
        requires
            old(self).well_formed(),
        ensures
            final(self).well_formed(),
            final(self)@ == (OutputView { cancelled: true, ..old(self)@.closed() }),
            final(self)@.queue() == old(self)@.queue(),
    {
        let ghost before = self@;
        proof {
            lemma_published(before);
            text::lemma_byte_len_at_least_chars(Seq::<char>::empty());
        }
        self.publish_pending();
        self.cancelled = true;
        self.backlog = String::new();
        self.flush_due = false;
        proof {
            assert(self@ =~~= (OutputView { cancelled: true, ..before.closed() }));
            assert(self@.queue() == before.queue());
        }
    }

    pub fn cancel_requested(&self) -> (result: bool)
        ensures
            result == self@.cancelled,
    {
        self.cancelled
    }

    /// Ends the channel after all text; the reader still gets the queued text.
    pub fn finish(&mut self)
        requires
            old(self).well_formed(),
        ensures
            final(self).well_formed(),
            final(self)@ == (OutputView { finished: true, ..old(self)@.closed() }),
            final(self)@.queue() == old(self)@.queue(),
    {
        let ghost before = self@;
        proof {
            lemma_published(before);
            text::lemma_byte_len_at_least_chars(Seq::<char>::empty());
        }
        self.publish_pending();
        self.finished = true;
        self.backlog = String::new();
        self.flush_due = false;
        proof {
            assert(self@ =~~= (OutputView { finished: true, ..before.closed() }));
            assert(self@.queue() == before.queue());
        }
    }

    fn discard(&mut self)
        ensures
            final(self).well_formed(),
            final(self)@ == old(self)@.discarded(),
    {
        let ghost before = self@;
        self.ready.clear();
        self.pending = String::new();
        self.backlog = String::new();
        self.flush_due = false;
        self.queued = 0;
        proof {
            assert(self@ =~~= before.discarded());
            assert(self@.queue() =~= Seq::<char>::empty());
        }
    }

    /// Ends the channel and drops its text.
    pub fn stop(&mut self)
        ensures
            final(self).well_formed(),
            final(self)@ == (OutputView { stopped: true, ..old(self)@.discarded() }),
    {
        self.stopped = true;
        self.discard();
    }

    /// The last emitter is gone: a channel that has not ended is stopped.
    pub fn release_last_producer(&mut self)
        requires
            old(self).well_formed(),
        ensures
            final(self).well_formed(),
            final(self)@ == if old(self)@.emit_result() is Written {
                OutputView { stopped: true, ..old(self)@.discarded() }
            } else {
                old(self)@
            },
    {
        if self.emit_result() == EmitResult::Written {
            self.stop();
        }
    }

    /// The reader is gone: its text is dropped.
    pub fn disconnect(&mut self)
        ensures
            final(self).well_formed(),
            final(self)@ == (OutputView { disconnected: true, ..old(self)@.discarded() }),
    {
        self.disconnected = true;
        self.discard();
    }

    /// Takes the next ready chunk.
    pub fn next_chunk(&mut self) -> (poll: ChunkPoll)
        requires
            old(self).well_formed(),
        ensures
            final(self).well_formed(),
            match poll {
                ChunkPoll::Chunk(chunk) => {
                    &&& old(self)@.ready.len() > 0
                    &&& chunk@ == old(self)@.ready[0]
                    &&& 0 < text::byte_len(chunk@) <= OUTPUT_CHUNK_BYTES
                    &&& final(self)@ == (OutputView {
                        ready: old(self)@.ready.skip(1),
                        ..old(self)@
                    })
                    &&& chunk@ + final(self)@.text() == old(self)@.text()
                },
                ChunkPoll::Ended => {
                    &&& old(self)@.ready.len() == 0
                    &&& !(old(self)@.emit_result() is Written)
                    &&& final(self)@ == old(self)@
                },
                ChunkPoll::Pending => {
                    &&& old(self)@.ready.len() == 0
                    &&& old(self)@.emit_result() is Written
                    &&& final(self)@ == old(self)@
                },
            },
    {
        let ghost before = self@;
        match self.ready.pop_front() {
            Some(chunk) => {
                proof {
                    assert(before.ready[0] == chunk@);
                    lemma_taken(before);
                }
                self.queued = self.queued - byte_count(chunk.as_str());
                assert(self@ =~~= (OutputView { ready: before.ready.skip(1), ..before }));
                ChunkPoll::Chunk(chunk)
            },
            None => {
                if self.disconnected || self.cancelled || self.stopped || self.finished {
                    ChunkPoll::Ended
                } else {
                    ChunkPoll::Pending
                }
            },
        }
    }

    /// The size of the queued text.
    pub fn queued_bytes(&self) -> (count: usize)
        requires
            self.well_formed(),
        ensures
            count == self@.queued_bytes(),
            count <= OUTPUT_BUFFER_BYTES,
    {
        self.queued
    }

    /// The number of chunks that the queued text makes up.
    pub fn queued_chunks(&self) -> (count: usize)
        requires
            self.well_formed(),
        ensures
            count == self@.ready.len() + if self@.pending.len() > 0 {
                1int
            } else {
                0
            },
    {
        proof {
            lemma_chunk_count(self@.ready);
            text::lemma_byte_len_concat(joined(self@.ready), self@.pending);
        }
        let gathered: usize = if self.pending.as_str().is_empty() {
            0
        } else {
            1
        };
        self.ready.len() + gathered
    }
}

proof fn lemma_chunk_count(chunks: Seq<Seq<char>>)
    requires
        forall|i: int| 0 <= i < chunks.len() ==> 0 < text::byte_len(#[trigger] chunks[i]),
    ensures
        chunks.len() <= text::byte_len(joined(chunks)),
    decreases chunks.len(),
{
    if chunks.len() > 0 {
        let rest = chunks.drop_last();
        assert forall|i: int| 0 <= i < rest.len() implies 0 < text::byte_len(#[trigger] rest[i]) by {
            assert(rest[i] == chunks[i]);
        }
        lemma_chunk_count(rest);
        text::lemma_byte_len_concat(joined(rest), chunks.last());
        assert(text::byte_len(chunks[chunks.len() - 1]) > 0);
    }
}

/// Text that is made available joins the last chunk that waits, as far as that has room, and
/// makes up a chunk of its own only beyond that.
pub proof fn law_chunks_are_filled(output: OutputView)
    requires
        output.limited(),
        output.pending.len() > 0,
    ensures
        ({
            let after = output.published();
            let last = output.ready.last();
            &&& after.pending.len() == 0
            &&& output.ready.len() == 0 ==> after.ready == seq![output.pending]
            &&& output.ready.len() > 0 && text::byte_len(last) + text::byte_len(output.pending)
                <= 16384 ==> after.ready == output.ready.drop_last().push(last + output.pending)
            &&& output.ready.len() > 0 && text::byte_len(last) + text::byte_len(output.pending)
                > 16384 ==> after.ready.len() == output.ready.len() + 1
            &&& after.ready.len() >= output.ready.len()
        }),
{
    let after = output.published();
    let pending = output.pending;
    if output.ready.len() > 0 {
        let last = output.ready.last();
        assert(text::byte_len(output.ready[output.ready.len() - 1]) <= 16384);
        let room = 16384 - text::byte_len(last);
        let count = text::prefix_chars(pending, room);
        text::law_prefix_is_the_longest_that_fits(pending, room);
        if count < pending.len() {
            text::lemma_byte_len_concat(pending.take(count + 1), pending.skip(count + 1));
            assert(pending.take(count + 1) + pending.skip(count + 1) =~= pending);
        } else {
            assert(pending.take(count) =~= pending);
        }
        if count == 0 {
            assert(pending.skip(0) =~= pending);
        }
    } else {
        assert(pending.skip(0) =~= pending);
        assert(after.ready =~= seq![pending]);
    }
}

} // verus!
