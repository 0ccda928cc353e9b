//! Execution sources: their bytes, and what the form scanner found in them.
use bytes::Bytes;
use vstd::prelude::*;
use vstd::utf8::*;

verus! {

/// `bytes::Bytes`: a shared, immutable run of bytes.
#[verifier::external_type_specification]
#[verifier::external_body]
pub struct ExBytes(Bytes);

/// The bytes that a `Bytes` holds.
pub uninterp spec fn bytes_contents(source: Bytes) -> Seq<u8>;

/// `Bytes::deref`: the bytes as a slice.
#[verifier::external_body]
pub(crate) fn bytes_slice(source: &Bytes) -> (slice: &[u8])
    ensures
        slice@ == bytes_contents(*source),
{
    source
}

/// `Bytes::slice` with a range that is open at its end: the bytes from `begin` on.
/// It panics where the range starts behind the end.
#[verifier::external_body]
pub(crate) fn bytes_from(source: &Bytes, begin: usize) -> (rest: Bytes)
    requires
        begin <= bytes_contents(*source).len(),
    ensures
        bytes_contents(rest) == bytes_contents(*source).skip(begin as int),
{
    source.slice(begin..)
}

/// `Bytes::clone`: another handle on the same bytes.
#[verifier::external_body]
pub(crate) fn bytes_clone(source: &Bytes) -> (copy: Bytes)
    ensures
        bytes_contents(copy) == bytes_contents(*source),
{
    source.clone()
}

/// `std::str::from_utf8`: the bytes as text, where they are valid UTF-8.
#[verifier::external_body]
pub(crate) fn utf8_text(bytes: &[u8]) -> (decoded: Option<&str>)
    ensures
        decoded is Some <==> valid_utf8(bytes@),
        decoded matches Some(slice) ==> encode_utf8(slice@) == bytes@,
{
    std::str::from_utf8(bytes).ok()
}

/// One complete form in a source: its bytes, and where it starts.
#[derive(Clone, Copy, Debug, PartialEq, Eq, Structural)]
pub struct FormSpan {
    pub byte_start: usize,
    pub byte_end: usize,
    pub line: usize,
    pub column: usize,
}

/// Where and why the form scanner gave up.
#[derive(Debug, PartialEq, Eq)]
pub struct ScanError {
    pub message: String,
    pub line: usize,
    pub column: usize,
}

/// What the form scanner says of a source: its verdict on the whole, which is
/// the number of forms, and what it yields form by form.
#[derive(Debug, PartialEq, Eq)]
pub struct SourceScan {
    pub form_count: Result<usize, ScanError>,
    pub forms: Vec<Result<FormSpan, ScanError>>,
}

impl FormSpan {
    /// The span lies in the source, between two of its characters at each end.
    pub open spec fn fits(self, source: Seq<u8>) -> bool {
        &&& self.byte_start <= self.byte_end
        &&& is_char_boundary(source, self.byte_start as int)
        &&& is_char_boundary(source, self.byte_end as int)
    }
}

impl SourceScan {
    /// Every span that the scan yields fits the source.
    pub open spec fn fits(&self, source: Seq<u8>) -> bool {
        forall|i: int|
            0 <= i < self.forms@.len() ==> (#[trigger] self.forms@[i] matches Ok(span)
                ==> span.fits(source))
    }

    /// Whether every span that the scan yields fits the source.
    pub fn check_fits(&self, source: &str) -> (result: bool)
        ensures
            result == self.fits(encode_utf8(source@)),
    {
        let mut index: usize = 0;
        while index < self.forms.len()
            invariant
                index <= self.forms@.len(),
                forall|i: int|
                    0 <= i < index ==> (#[trigger] self.forms@[i] matches Ok(span) ==> span.fits(
                        encode_utf8(source@),
                    )),
            decreases self.forms@.len() - index,
        {
            if let Ok(span) = &self.forms[index] {
                if span.byte_start > span.byte_end || !source.is_char_boundary(span.byte_start)
                    || !source.is_char_boundary(span.byte_end) {
                    assert(self.forms@[index as int] is Ok);
                    return false;
                }
            }
            index = index + 1;
        }
        true
    }
}

} // verus!
