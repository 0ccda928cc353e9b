//! Diagnostics of bounded size.
use vstd::prelude::*;
use vstd::utf8::*;

use crate::limits::MAX_DIAGNOSTIC_BYTES;
use crate::text;
use crate::text::{byte_count, split_prefix};

verus! {

const DIAGNOSTIC_TRUNCATION_SUFFIX_BYTES: usize = 15;

/// The mark behind a diagnostic that lost its end.
pub open spec fn truncation_suffix() -> Seq<char> {
    "... [truncated]"@
}

/// A diagnostic within its limit: unchanged where it fits and was not already
/// truncated, else its longest prefix that leaves room for the mark.
pub open spec fn bounded_text(message: Seq<char>, native_truncated: bool) -> Seq<char> {
    if !native_truncated && text::byte_len(message) <= MAX_DIAGNOSTIC_BYTES {
        message
    } else {
        message.take(
            text::prefix_chars(
                message,
                MAX_DIAGNOSTIC_BYTES - text::byte_len(truncation_suffix()),
            ),
        ) + truncation_suffix()
    }
}

/// A diagnostic with a further detail behind it.
pub open spec fn appended_text(message: Seq<char>, detail: Seq<char>) -> Seq<char> {
    bounded_text(message + "; "@ + detail, false)
}

proof fn lemma_suffix_bytes()
    ensures
        text::byte_len(truncation_suffix()) == DIAGNOSTIC_TRUNCATION_SUFFIX_BYTES,
{
    reveal_strlit("... [truncated]");
    is_ascii_chars_encode_utf8(truncation_suffix());
}

/// A bounded diagnostic keeps to the limit.
pub proof fn law_bounded_text_fits(message: Seq<char>, native_truncated: bool)
    ensures
        text::byte_len(bounded_text(message, native_truncated)) <= MAX_DIAGNOSTIC_BYTES,
{
    lemma_suffix_bytes();
    if native_truncated || text::byte_len(message) > MAX_DIAGNOSTIC_BYTES {
        let room = MAX_DIAGNOSTIC_BYTES - text::byte_len(truncation_suffix());
        text::lemma_prefix_chars(message, room);
        text::lemma_byte_len_concat(
            message.take(text::prefix_chars(message, room)),
            truncation_suffix(),
        );
    }
}

/// Bounding a bounded diagnostic changes nothing.
pub proof fn law_bounded_text_idempotent(message: Seq<char>, native_truncated: bool)
    ensures
        bounded_text(bounded_text(message, native_truncated), false) == bounded_text(
            message,
            native_truncated,
        ),
{
    law_bounded_text_fits(message, native_truncated);
}

/// A truncated diagnostic ends with the mark, and what stands before it is a
/// prefix of the message that no further character could have extended.
pub proof fn law_truncated_text_is_longest_prefix(message: Seq<char>)
    requires
        text::byte_len(message) > MAX_DIAGNOSTIC_BYTES,
    ensures
        exists|count: int|
            #![trigger message.take(count)]
            0 <= count < message.len() && bounded_text(message, false) == message.take(count)
                + truncation_suffix() && text::byte_len(
                message.take(count + 1) + truncation_suffix(),
            ) > MAX_DIAGNOSTIC_BYTES,
{
    lemma_suffix_bytes();
    let room = MAX_DIAGNOSTIC_BYTES - text::byte_len(truncation_suffix());
    let count = text::prefix_chars(message, room);
    text::lemma_prefix_chars(message, room);
    if count == message.len() {
        assert(message.take(count) =~= message);
    }
    text::lemma_byte_len_concat(message.take(count + 1), truncation_suffix());
    assert(bounded_text(message, false) == message.take(count) + truncation_suffix());
}

/// A text as it is told: as it is, or with its beginning and a mark where it is longer
/// than a diagnostic may be.
pub open spec fn told_text(told: Seq<char>, meant: Seq<char>) -> bool {
    &&& text::byte_len(told) <= 16384
    &&& text::byte_len(meant) <= 16384 ==> told == meant
    &&& text::byte_len(meant) > 16384 ==> exists|kept: int|
        0 <= kept < meant.len() && told == #[trigger] meant.take(kept) + "... [truncated]"@
}

/// A diagnostic that fits is told as it is; one that does not is cut and marked.
pub proof fn law_diagnostic_keeps_its_text(message: Seq<char>)
    ensures
        told_text(bounded_text(message, false), message),
{
    law_bounded_text_fits(message, false);
    if text::byte_len(message) > 16384 {
        law_truncated_text_is_longest_prefix(message);
    }
}

/// Brings a diagnostic within its limit.
pub fn bound_diagnostic(message: &mut String)
    ensures
        final(message)@ == bounded_text(old(message)@, false),
{
    bound_diagnostic_with_native_truncation(message, false);
}

pub fn bound_diagnostic_with_native_truncation(message: &mut String, native_truncated: bool)
    ensures
        final(message)@ == bounded_text(old(message)@, native_truncated),
{
    proof {
        lemma_suffix_bytes();
    }
    if !native_truncated && byte_count(message.as_str()) <= MAX_DIAGNOSTIC_BYTES {
        return ;
    }
    let parts = split_prefix(
        message.as_str(),
        MAX_DIAGNOSTIC_BYTES - DIAGNOSTIC_TRUNCATION_SUFFIX_BYTES,
    );
    let mut shortened = parts.0.to_owned();
    shortened.push_str("... [truncated]");
    *message = shortened;
}

pub fn bounded_diagnostic(message: String) -> (bounded: String)
    ensures
        bounded@ == bounded_text(message@, false),
{
    let mut bounded = message;
    bound_diagnostic(&mut bounded);
    bounded
}

/// A diagnostic that the native side may already have truncated.
pub fn bounded_native_diagnostic(message: String, native_truncated: bool) -> (bounded: String)
    ensures
        bounded@ == bounded_text(message@, native_truncated),
{
    let mut bounded = message;
    bound_diagnostic_with_native_truncation(&mut bounded, native_truncated);
    bounded
}

/// Adds a detail to a diagnostic.
pub fn append_diagnostic(message: &mut String, detail: &str)
    ensures
        final(message)@ == appended_text(old(message)@, detail@),
{
    message.push_str("; ");
    message.push_str(detail);
    bound_diagnostic(message);
}

} // verus!
