//! The output channel as the native side sees it.
use vstd::prelude::*;

pub use crate::execution::output::{
    channel, ChunkPoll, OutputSink, OutputView, OUTPUT_BUFFER_BYTES, OUTPUT_CHUNK_BYTES,
};
use crate::execution::output::EmitResult;
pub use crate::native::NativeOutputWriteResult as WriteResult;

verus! {

/// An answer of the channel in the terms of the native side.
pub open spec fn shown(result: EmitResult) -> WriteResult {
    match result {
        EmitResult::Written => WriteResult::Continue,
        EmitResult::Disconnected => WriteResult::Disconnected,
        EmitResult::Cancelled => WriteResult::Cancelled,
        EmitResult::Stopped => WriteResult::Stopped,
        EmitResult::Finished => WriteResult::Finished,
        EmitResult::Blocked => WriteResult::Blocked,
    }
}

impl OutputView {
    /// Whether output is wanted, in the terms of the native side.
    pub open spec fn write_status(self) -> WriteResult {
        shown(self.emit_result())
    }

    /// The answer to an emission or a flush that left the channel like this.
    pub open spec fn write_answer(self) -> WriteResult {
        shown(self.answered())
    }
}

fn write_result(result: EmitResult) -> (mapped: WriteResult)
    ensures
        mapped == shown(result),
{
    match result {
        EmitResult::Written => WriteResult::Continue,
        EmitResult::Disconnected => WriteResult::Disconnected,
        EmitResult::Cancelled => WriteResult::Cancelled,
        EmitResult::Stopped => WriteResult::Stopped,
        EmitResult::Finished => WriteResult::Finished,
        EmitResult::Blocked => WriteResult::Blocked,
    }
}

/// Hands text over to the channel.
pub fn emit(sink: &mut OutputSink, text: &str) -> (result: WriteResult)
    requires
        old(sink).well_formed(),
    ensures
        final(sink).well_formed(),
        final(sink)@.extended_by(old(sink)@, text@),
        result == if text@.len() == 0 {
            old(sink)@.write_status()
        } else {
            final(sink)@.write_answer()
        },
        !(old(sink)@.write_status() is Continue) ==> result == old(sink)@.write_status(),
{
    write_result(sink.emit(text))
}

/// Makes gathered text available to the reader.
pub fn flush(sink: &mut OutputSink) -> (result: WriteResult)
    requires
        old(sink).well_formed(),
    ensures
        final(sink).well_formed(),
        final(sink)@ == old(sink)@.flushed(),
        final(sink)@.emit_result() == old(sink)@.emit_result(),
        result == final(sink)@.write_answer(),
        !(old(sink)@.write_status() is Continue) ==> result == old(sink)@.write_status(),
        result is Continue ==> final(sink)@.pending.len() == 0,
{
    write_result(sink.flush())
}

/// Asks again for text that waits for room.
pub fn resume(sink: &mut OutputSink) -> (result: WriteResult)
    requires
        old(sink).well_formed(),
    ensures
        final(sink).well_formed(),
        final(sink)@ == old(sink)@.resumed(),
        result == final(sink)@.write_answer(),
{
    write_result(sink.resume())
}

/// Hands over the parts of a line, and makes it available to the reader.
pub(crate) fn write_line(sink: &mut OutputSink, start: &str, text: &str, end: &str) -> (result:
    WriteResult)
    requires
        old(sink).well_formed(),
        end@.len() > 0,
    ensures
        final(sink).well_formed(),
        final(sink)@ == old(sink)@.extended(start@ + text@ + end@).flushed(),
        final(sink)@.emit_result() == old(sink)@.emit_result(),
        result == final(sink)@.write_answer(),
        !(old(sink)@.write_status() is Continue) ==> result == old(sink)@.write_status(),
        result is Continue ==> final(sink)@.pending.len() == 0,
{
    let ghost before = sink@;
    let _ = emit(sink, start);
    let _ = emit(sink, text);
    let _ = emit(sink, end);
    proof {
        crate::execution::output::law_parts_join(before, start@, text@);
        crate::execution::output::law_parts_join(before, start@ + text@, end@);
    }
    flush(sink)
}

/// What an emission is answered. A channel that has lost its reader says so first; then one
/// that was stopped, cancelled or finished, in this order. Else an emission that waits is
/// blocked, and any other goes on.
pub proof fn law_answers_of_the_channel(output: OutputView)
    ensures
        output.write_status() is Disconnected <==> output.disconnected,
        output.write_status() is Stopped <==> output.stopped && !output.disconnected,
        output.write_status() is Cancelled <==> output.cancelled && !output.stopped
            && !output.disconnected,
        output.write_status() is Finished <==> output.finished && !output.cancelled
            && !output.stopped && !output.disconnected,
        output.write_status() is Continue <==> !output.finished && !output.cancelled
            && !output.stopped && !output.disconnected,
        output.write_answer() is Blocked <==> output.backlog.len() > 0,
        output.backlog.len() == 0 ==> output.write_answer() == output.write_status(),
{
}

/// The reader gets chunks of at most 16 KiB, and no more than 256 KiB wait for it.
pub proof fn law_channel_is_bounded(output: OutputView, place: int)
    requires
        output.limited(),
    ensures
        0 <= place < output.ready.len() ==> 0 < crate::text::byte_len(output.ready[place])
            <= 16384,
        crate::text::byte_len(output.queue()) <= 262144,
{
}

} // verus!
