//! Labelled separator lines.
use vstd::prelude::*;

use super::output::{write_line, OutputSink, WriteResult};
use crate::text;
use crate::text::{byte_count, contains_control};

verus! {

pub const MAX_LABEL_BYTES: usize = 4096;

/// Why a label is not written, whatever the channel says.
pub open spec fn label_fault(text: Seq<char>) -> Option<WriteResult> {
    if text.len() == 0 || text::has_control(text) {
        Some(WriteResult::InvalidSequence)
    } else if text::byte_len(text) > MAX_LABEL_BYTES {
        Some(WriteResult::LimitExceeded)
    } else {
        None
    }
}

/// Writes a line with the label in it, and makes it available to the reader.
pub fn write(sink: &mut OutputSink, text: &str) -> (result: WriteResult)
    requires
        old(sink).well_formed(),
    ensures
        final(sink).well_formed(),
        match label_fault(text@) {
            Some(fault) => result == fault && final(sink)@ == old(sink)@,
            None => {
                &&& final(sink)@ == old(sink)@.extended("--- "@ + text@ + " ---\n"@).flushed()
                &&& result == final(sink)@.write_answer()
                &&& final(sink)@.emit_result() == old(sink)@.emit_result()
                &&& !(old(sink)@.write_status() is Continue) ==> result == old(
                    sink,
                )@.write_status()
            },
        },
        result is Continue ==> final(sink)@.pending.len() == 0,
{
    if text.is_empty() || contains_control(text) {
        return WriteResult::InvalidSequence;
    }
    if byte_count(text) > MAX_LABEL_BYTES {
        return WriteResult::LimitExceeded;
    }
    proof {
        reveal_strlit(" ---\n");
    }
    write_line(sink, "--- ", text, " ---\n")
}

/// A label has between 1 and 4096 bytes and no control character. Any other is refused, as
/// malformed or else as too long.
pub proof fn law_labels_are_checked(text: Seq<char>)
    ensures
        ({
            let control = exists|i: int|
                0 <= i < text.len() && ((#[trigger] text[i] as int) < 32 || 127 <= text[i] as int
                    && (text[i] as int) < 160);
            let malformed = text.len() == 0 || control;
            &&& malformed <==> label_fault(text) == Some(WriteResult::InvalidSequence)
            &&& !malformed && text::byte_len(text) > 4096 <==> label_fault(text) == Some(
                WriteResult::LimitExceeded,
            )
            &&& !malformed && text::byte_len(text) <= 4096 <==> label_fault(text) is None
        }),
{
    if text::has_control(text) {
        let i = choose|i: int| 0 <= i < text.len() && text::control_character(#[trigger] text[i]);
        text::law_character_classes(text[i]);
        assert((text[i] as int) < 32 || 127 <= text[i] as int && (text[i] as int) < 160);
    }
    if exists|i: int|
        0 <= i < text.len() && ((#[trigger] text[i] as int) < 32 || 127 <= text[i] as int
            && (text[i] as int) < 160) {
        let i = choose|i: int|
            0 <= i < text.len() && ((#[trigger] text[i] as int) < 32 || 127 <= text[i] as int
                && (text[i] as int) < 160);
        text::law_character_classes(text[i]);
        assert(text::control_character(text[i]));
    }
}

} // verus!
