//! A printer of values for display or for reading back.
use vstd::prelude::*;

use super::output::{EmitResult, OutputSink};
use crate::printing;
use crate::printing::{
    await_room, opaque, valid_handle, valid_label, Printed, Structure, StructureView,
};
pub use crate::printing::{MAX_VALUE_DEPTH, MAX_VALUE_TEXT_BYTES};
use crate::text;
use crate::text::{
    ascii_uppercase, byte_count, chars_of, is_decimal_digit, push_decimal, push_signed_decimal,
};

verus! {

pub const MAX_REAL_TEXT_BYTES: usize = 64;

pub const MAX_CLASS_NAME_BYTES: usize = 128;

pub const MAX_FUNCTION_NAME_BYTES: usize = 256;

/// Display leaves strings and symbols as they are; readable text quotes and
/// escapes them.
#[derive(Clone, Copy, Debug, PartialEq, Eq, Structural)]
pub enum PrintMode {
    Display,
    Readable,
}

/// Why an event was not printed.
#[derive(Clone, Copy, Debug, PartialEq, Eq, Structural)]
pub enum PrintError {
    InvalidSequence,
    LimitExceeded,
    Output(EmitResult),
}

/// Prints values one event at a time.
pub struct ValuePrinter {
    mode: PrintMode,
    structure: Structure,
}

/// A value that cannot be read back.
#[derive(Clone, Copy, Debug, PartialEq, Eq, Structural)]
pub enum OpaqueKind {
    Entity,
    SelectionSet,
    VlaObject,
    File,
    Function,
    Error,
    Object,
    Void,
}

impl OpaqueKind {
    pub open spec fn text(self) -> Seq<char> {
        match self {
            OpaqueKind::Entity => "Entity"@,
            OpaqueKind::SelectionSet => "SelectionSet"@,
            OpaqueKind::VlaObject => "VlaObject"@,
            OpaqueKind::File => "File"@,
            OpaqueKind::Function => "Function"@,
            OpaqueKind::Error => "Error"@,
            OpaqueKind::Object => "Object"@,
            OpaqueKind::Void => "Void"@,
        }
    }

    pub fn name(self) -> (name: &'static str)
        ensures
            name@ == self.text(),
    {
        match self {
            OpaqueKind::Entity => "Entity",
            OpaqueKind::SelectionSet => "SelectionSet",
            OpaqueKind::VlaObject => "VlaObject",
            OpaqueKind::File => "File",
            OpaqueKind::Function => "Function",
            OpaqueKind::Error => "Error",
            OpaqueKind::Object => "Object",
            OpaqueKind::Void => "Void",
        }
    }
}

/// The text of a real number, and whether the number it stands for is finite.
#[derive(Clone, Copy, Debug, PartialEq, Eq)]
pub struct RealToken<'a> {
    pub text: &'a str,
    pub finite: bool,
}

/// The position behind the digits that start at `start`.
pub open spec fn digits_end(text: Seq<char>, start: int) -> int
    decreases text.len() - start,
{
    if 0 <= start < text.len() && text::decimal_digit(text[start]) {
        digits_end(text, start + 1)
    } else {
        start
    }
}

pub open spec fn sign_at(text: Seq<char>, position: int) -> bool {
    0 <= position < text.len() && (text[position] == '+' || text[position] == '-')
}

/// Nothing, or a marker, an optional sign and digits up to the end.
pub open spec fn exponent_syntax(text: Seq<char>, position: int) -> bool {
    ||| position == text.len()
    ||| {
        let start = if sign_at(text, position + 1) {
            position + 2
        } else {
            position + 1
        };
        &&& 0 <= position < text.len()
        &&& text[position] == 'e' || text[position] == 'E'
        &&& start < digits_end(text, start) == text.len()
    }
}

/// An optional sign, digits, a point, digits, and perhaps an exponent.
pub open spec fn real_syntax(text: Seq<char>) -> bool {
    let start: int = if sign_at(text, 0) {
        1
    } else {
        0
    };
    let point = digits_end(text, start);
    let end = digits_end(text, point + 1);
    &&& start < point < text.len()
    &&& text[point] == '.'
    &&& point + 1 < end
    &&& exponent_syntax(text, end)
}

impl<'a> RealToken<'a> {
    pub open spec fn valid(self) -> bool {
        &&& text::byte_len(self.text@) <= MAX_REAL_TEXT_BYTES
        &&& real_syntax(self.text@)
        &&& self.finite
    }
}

fn skip_digits(chars: &Vec<char>, start: usize) -> (end: usize)
    requires
        start <= chars@.len(),
    ensures
        end == digits_end(chars@, start as int),
        start <= end <= chars@.len(),
{
    let mut end: usize = start;
    while end < chars.len() && is_decimal_digit(chars[end])
        invariant
            start <= end <= chars@.len(),
            digits_end(chars@, start as int) == digits_end(chars@, end as int),
        decreases chars@.len() - end,
    {
        end = end + 1;
    }
    end
}

fn skip_sign(chars: &Vec<char>, start: usize) -> (end: usize)
    requires
        start <= chars@.len(),
    ensures
        end == if sign_at(chars@, start as int) {
            start + 1
        } else {
            start as int
        },
        end <= chars@.len(),
{
    if start < chars.len() && (chars[start] == '+' || chars[start] == '-') {
        start + 1
    } else {
        start
    }
}

/// Whether a text is a real number as AutoLISP writes one.
pub fn canonical_real_syntax(text: &str) -> (result: bool)
    ensures
        result == real_syntax(text@),
{
    let chars = chars_of(text);
    let length: usize = chars.len();
    let start: usize = skip_sign(&chars, 0);
    let point: usize = skip_digits(&chars, start);
    if point == start || point == length || chars[point] != '.' {
        return false;
    }
    let end: usize = skip_digits(&chars, point + 1);
    if end == point + 1 {
        return false;
    }
    if end == length {
        return true;
    }
    if chars[end] != 'e' && chars[end] != 'E' {
        return false;
    }
    let exponent: usize = skip_sign(&chars, end + 1);
    let last: usize = skip_digits(&chars, exponent);
    last != exponent && last == length
}

pub fn valid_real_text(token: &RealToken<'_>) -> (result: bool)
    ensures
        result == token.valid(),
{
    byte_count(token.text) <= MAX_REAL_TEXT_BYTES && canonical_real_syntax(token.text)
        && token.finite
}

/// The coordinates of a point, separated by spaces.
pub open spec fn coordinate_text(coordinates: Seq<RealToken<'_>>) -> Seq<char>
    decreases coordinates.len(),
{
    if coordinates.len() == 0 {
        Seq::empty()
    } else if coordinates.len() == 1 {
        coordinates[0].text@
    } else {
        coordinate_text(coordinates.drop_last()) + " "@ + coordinates.last().text@
    }
}

pub open spec fn point_syntax(coordinates: Seq<RealToken<'_>>) -> bool {
    &&& coordinates.len() == 2 || coordinates.len() == 3
    &&& forall|i: int| 0 <= i < coordinates.len() ==> (#[trigger] coordinates[i]).valid()
}

/// The text of the coordinates, if they make up a point.
fn valid_coordinates(coordinates: &Vec<RealToken<'_>>) -> (shown: Option<String>)
    ensures
        shown is Some <==> point_syntax(coordinates@),
        shown matches Some(shown) ==> shown@ == coordinate_text(coordinates@),
{
    if coordinates.len() != 2 && coordinates.len() != 3 {
        return None;
    }
    let mut shown = String::new();
    let mut index: usize = 0;
    while index < coordinates.len()
        invariant
            index <= coordinates@.len(),
            forall|i: int| 0 <= i < index ==> (#[trigger] coordinates@[i]).valid(),
            shown@ == coordinate_text(coordinates@.take(index as int)),
        decreases coordinates@.len() - index,
    {
        if !valid_real_text(&coordinates[index]) {
            assert(!coordinates@[index as int].valid());
            return None;
        }
        proof {
            let next = coordinates@.take(index + 1);
            assert(next.drop_last() =~= coordinates@.take(index as int));
            assert(next.last() == coordinates@[index as int]);
        }
        if index != 0 {
            shown.push_str(" ");
        }
        shown.push_str(coordinates[index].text);
        assert(shown@ =~= coordinate_text(coordinates@.take(index + 1)));
        index = index + 1;
    }
    assert(coordinates@.take(coordinates@.len() as int) =~= coordinates@);
    Some(shown)
}

/// What stands for lists that are nested too deeply.
pub open spec fn depth_marker() -> Seq<char> {
    printing::opaque_text(OpaqueKind::Object.text(), Some("DepthLimit"@))
}

pub open spec fn entity_text(handle: Option<Seq<char>>) -> Seq<char> {
    printing::opaque_text(
        OpaqueKind::Entity.text(),
        match handle {
            Some(handle) => if printing::handle_text(handle) {
                Some(text::ascii_upper_text(handle))
            } else {
                None
            },
            None => None,
        },
    )
}

pub open spec fn selection_set_text(number: Option<u64>) -> Seq<char> {
    printing::opaque_text(
        OpaqueKind::SelectionSet.text(),
        match number {
            Some(number) => Some(text::decimal(number as nat)),
            None => None,
        },
    )
}

pub open spec fn unsupported_text(native_type: Option<u32>) -> Seq<char> {
    printing::opaque_text(
        OpaqueKind::Object.text(),
        match native_type {
            Some(native_type) => Some("RT"@ + text::decimal(native_type as nat)),
            None => None,
        },
    )
}

/// An opaque value with its label, where that can stand in the text.
pub open spec fn labelled_text(
    kind: OpaqueKind,
    label: Option<Seq<char>>,
    max_bytes: int,
) -> Seq<char> {
    printing::opaque_text(
        kind.text(),
        match label {
            Some(label) => if printing::label_text(label, max_bytes) {
                Some(label)
            } else {
                None
            },
            None => None,
        },
    )
}

fn labelled(kind: OpaqueKind, label: Option<&str>, max_bytes: usize) -> (shown: String)
    ensures
        shown@ == labelled_text(kind, printing::optional_text(label), max_bytes as int),
{
    match label {
        Some(label) => if valid_label(label, max_bytes) {
            opaque(kind.name(), Some(label))
        } else {
            opaque(kind.name(), None)
        },
        None => opaque(kind.name(), None),
    }
}

impl StructureView {
    /// A real number. One that AutoLISP does not write like this is refused
    /// before all else.
    pub open spec fn real_token(self, status: EmitResult, token: RealToken<'_>) -> Printed {
        if token.valid() {
            self.value(status, token.text@)
        } else {
            self.refused(PrintError::InvalidSequence)
        }
    }

    pub open spec fn point(self, status: EmitResult, coordinates: Seq<RealToken<'_>>) -> Printed {
        if point_syntax(coordinates) {
            self.value(status, "("@ + coordinate_text(coordinates) + ")"@)
        } else {
            self.refused(PrintError::InvalidSequence)
        }
    }
}

impl View for ValuePrinter {
    type V = StructureView;

    closed spec fn view(&self) -> StructureView {
        self.structure@
    }
}

impl ValuePrinter {
    pub closed spec fn well_formed(&self) -> bool {
        self.structure.well_formed()
    }

    pub closed spec fn mode(&self) -> PrintMode {
        self.mode
    }

    pub fn new(mode: PrintMode) -> (printer: ValuePrinter)
        ensures
            printer.well_formed(),
            printer.mode() == mode,
            printer@ == StructureView::empty(false),
    {
        ValuePrinter { mode, structure: Structure::new(false) }
    }

    pub fn begin_list(&mut self, sink: &mut OutputSink) -> (result: Result<(), PrintError>)
        requires
            old(self).well_formed(),
            old(sink).well_formed(),
        ensures
            final(self).well_formed(),
            final(self).mode() == old(self).mode(),
            final(sink).well_formed(),
            printing::performed(
                old(self)@.begin_list(old(sink)@.emit_result(), depth_marker()),
                final(self)@,
                old(sink)@,
                final(sink)@,
                result,
            ),
    {
        let marker = opaque(OpaqueKind::Object.name(), Some("DepthLimit"));
        let result = self.structure.begin_list(sink, marker.as_str());
        await_room(sink, result)
    }

    pub fn end_list(&mut self, sink: &mut OutputSink) -> (result: Result<(), PrintError>)
        requires
            old(self).well_formed(),
            old(sink).well_formed(),
        ensures
            final(self).well_formed(),
            final(self).mode() == old(self).mode(),
            final(sink).well_formed(),
            printing::performed(
                old(self)@.end_list(old(sink)@.emit_result()),
                final(self)@,
                old(sink)@,
                final(sink)@,
                result,
            ),
    {
        let result = self.structure.end_list(sink);
        await_room(sink, result)
    }

    pub fn dot(&mut self, sink: &mut OutputSink) -> (result: Result<(), PrintError>)
        requires
            old(self).well_formed(),
            old(sink).well_formed(),
        ensures
            final(self).well_formed(),
            final(self).mode() == old(self).mode(),
            final(sink).well_formed(),
            printing::performed(
                old(self)@.dot(old(sink)@.emit_result()),
                final(self)@,
                old(sink)@,
                final(sink)@,
                result,
            ),
    {
        let result = self.structure.dot(sink);
        await_room(sink, result)
    }

    pub fn nil(&mut self, sink: &mut OutputSink) -> (result: Result<(), PrintError>)
        requires
            old(self).well_formed(),
            old(sink).well_formed(),
        ensures
            final(self).well_formed(),
            final(self).mode() == old(self).mode(),
            final(sink).well_formed(),
            printing::performed(
                old(self)@.value(old(sink)@.emit_result(), "nil"@),
                final(self)@,
                old(sink)@,
                final(sink)@,
                result,
            ),
    {
        let result = self.structure.value(sink, "nil");
        await_room(sink, result)
    }

    pub fn true_value(&mut self, sink: &mut OutputSink) -> (result: Result<(), PrintError>)
        requires
            old(self).well_formed(),
            old(sink).well_formed(),
        ensures
            final(self).well_formed(),
            final(self).mode() == old(self).mode(),
            final(sink).well_formed(),
            printing::performed(
                old(self)@.value(old(sink)@.emit_result(), "T"@),
                final(self)@,
                old(sink)@,
                final(sink)@,
                result,
            ),
    {
        let result = self.structure.value(sink, "T");
        await_room(sink, result)
    }

    pub fn integer(&mut self, sink: &mut OutputSink, value: i64) -> (result: Result<(), PrintError>)
        requires
            old(self).well_formed(),
            old(sink).well_formed(),
        ensures
            final(self).well_formed(),
            final(self).mode() == old(self).mode(),
            final(sink).well_formed(),
            printing::performed(
                old(self)@.value(old(sink)@.emit_result(), text::signed_decimal(value as int)),
                final(self)@,
                old(sink)@,
                final(sink)@,
                result,
            ),
    {
        let mut text = String::new();
        push_signed_decimal(&mut text, value);
        assert(text@ =~= text::signed_decimal(value as int));
        let result = self.structure.value(sink, text.as_str());
        await_room(sink, result)
    }

    /// A real number as AutoLISP normalizes it.
    pub fn real_text(&mut self, sink: &mut OutputSink, text: RealToken<'_>) -> (result: Result<(), PrintError>)
        requires
            old(self).well_formed(),
            old(sink).well_formed(),
        ensures
            final(self).well_formed(),
            final(self).mode() == old(self).mode(),
            final(sink).well_formed(),
            printing::performed(
                old(self)@.real_token(old(sink)@.emit_result(), text),
                final(self)@,
                old(sink)@,
                final(sink)@,
                result,
            ),
    {
        assert(sink@.extended(Seq::empty()) == sink@) by {
            crate::execution::output::law_nothing_is_added(sink@);
        }
        if !valid_real_text(&text) {
            return Err(PrintError::InvalidSequence);
        }
        let result = self.structure.value(sink, text.text);
        await_room(sink, result)
    }

    /// A point of two or three coordinates.
    pub fn point(&mut self, sink: &mut OutputSink, coordinates: &Vec<RealToken<'_>>) -> (result: Result<(), PrintError>)
        requires
            old(self).well_formed(),
            old(sink).well_formed(),
        ensures
            final(self).well_formed(),
            final(self).mode() == old(self).mode(),
            final(sink).well_formed(),
            printing::performed(
                old(self)@.point(old(sink)@.emit_result(), coordinates@),
                final(self)@,
                old(sink)@,
                final(sink)@,
                result,
            ),
    {
        assert(sink@.extended(Seq::empty()) == sink@) by {
            crate::execution::output::law_nothing_is_added(sink@);
        }
        let shown = match valid_coordinates(coordinates) {
            Some(shown) => shown,
            None => {
                return Err(PrintError::InvalidSequence);
            },
        };
        let mut text = "(".to_owned();
        text.push_str(shown.as_str());
        text.push_str(")");
        let result = self.structure.value(sink, text.as_str());
        await_room(sink, result)
    }

    pub fn begin_symbol(&mut self, sink: &mut OutputSink) -> (result: Result<(), PrintError>)
        requires
            old(self).well_formed(),
            old(sink).well_formed(),
        ensures
            final(self).well_formed(),
            final(self).mode() == old(self).mode(),
            final(sink).well_formed(),
            printing::performed(
                old(self)@.begin_symbol(old(sink)@.emit_result()),
                final(self)@,
                old(sink)@,
                final(sink)@,
                result,
            ),
    {
        let result = self.structure.begin_symbol(sink);
        await_room(sink, result)
    }

    pub fn symbol_chunk(&mut self, sink: &mut OutputSink, text: &str) -> (result: Result<(), PrintError>)
        requires
            old(self).well_formed(),
            old(sink).well_formed(),
        ensures
            final(self).well_formed(),
            final(self).mode() == old(self).mode(),
            final(sink).well_formed(),
            printing::performed(
                old(self)@.symbol_chunk(old(sink)@.emit_result(), text@, old(self).mode() is Readable),
                final(self)@,
                old(sink)@,
                final(sink)@,
                result,
            ),
    {
        let result = self.structure.symbol_chunk(sink, text, self.mode == PrintMode::Readable);
        await_room(sink, result)
    }

    pub fn end_symbol(&mut self, sink: &mut OutputSink) -> (result: Result<(), PrintError>)
        requires
            old(self).well_formed(),
            old(sink).well_formed(),
        ensures
            final(self).well_formed(),
            final(self).mode() == old(self).mode(),
            final(sink).well_formed(),
            printing::performed(
                old(self)@.end_symbol(old(sink)@.emit_result()),
                final(self)@,
                old(sink)@,
                final(sink)@,
                result,
            ),
    {
        let result = self.structure.end_symbol(sink);
        await_room(sink, result)
    }

    pub fn begin_string(&mut self, sink: &mut OutputSink) -> (result: Result<(), PrintError>)
        requires
            old(self).well_formed(),
            old(sink).well_formed(),
        ensures
            final(self).well_formed(),
            final(self).mode() == old(self).mode(),
            final(sink).well_formed(),
            printing::performed(
                old(self)@.begin_string(old(sink)@.emit_result(), old(self).mode() is Readable),
                final(self)@,
                old(sink)@,
                final(sink)@,
                result,
            ),
    {
        let result = self.structure.begin_string(sink, self.mode == PrintMode::Readable);
        await_room(sink, result)
    }

    pub fn string_chunk(&mut self, sink: &mut OutputSink, text: &str) -> (result: Result<(), PrintError>)
        requires
            old(self).well_formed(),
            old(sink).well_formed(),
        ensures
            final(self).well_formed(),
            final(self).mode() == old(self).mode(),
            final(sink).well_formed(),
            printing::performed(
                old(self)@.string_chunk(old(sink)@.emit_result(), text@, old(self).mode() is Readable),
                final(self)@,
                old(sink)@,
                final(sink)@,
                result,
            ),
    {
        let result = self.structure.string_chunk(sink, text, self.mode == PrintMode::Readable);
        await_room(sink, result)
    }

    pub fn end_string(&mut self, sink: &mut OutputSink) -> (result: Result<(), PrintError>)
        requires
            old(self).well_formed(),
            old(sink).well_formed(),
        ensures
            final(self).well_formed(),
            final(self).mode() == old(self).mode(),
            final(sink).well_formed(),
            printing::performed(
                old(self)@.end_string(old(sink)@.emit_result(), old(self).mode() is Readable),
                final(self)@,
                old(sink)@,
                final(sink)@,
                result,
            ),
    {
        let result = self.structure.end_string(sink, self.mode == PrintMode::Readable);
        await_room(sink, result)
    }

    pub fn entity(&mut self, sink: &mut OutputSink, handle: Option<&str>) -> (result: Result<(), PrintError>)
        requires
            old(self).well_formed(),
            old(sink).well_formed(),
        ensures
            final(self).well_formed(),
            final(self).mode() == old(self).mode(),
            final(sink).well_formed(),
            printing::performed(
                old(self)@.value(old(sink)@.emit_result(), entity_text(printing::optional_text(handle))),
                final(self)@,
                old(sink)@,
                final(sink)@,
                result,
            ),
    {
        let known = match handle {
            Some(handle) => if valid_handle(handle) {
                Some(ascii_uppercase(handle))
            } else {
                None
            },
            None => None,
        };
        let text = match known {
            Some(known) => opaque(OpaqueKind::Entity.name(), Some(known.as_str())),
            None => opaque(OpaqueKind::Entity.name(), None),
        };
        let result = self.structure.value(sink, text.as_str());
        await_room(sink, result)
    }

    pub fn selection_set(&mut self, sink: &mut OutputSink, number: Option<u64>) -> (result: Result<(), PrintError>)
        requires
            old(self).well_formed(),
            old(sink).well_formed(),
        ensures
            final(self).well_formed(),
            final(self).mode() == old(self).mode(),
            final(sink).well_formed(),
            printing::performed(
                old(self)@.value(old(sink)@.emit_result(), selection_set_text(number)),
                final(self)@,
                old(sink)@,
                final(sink)@,
                result,
            ),
    {
        let text = match number {
            Some(number) => {
                let mut numeral = String::new();
                push_decimal(&mut numeral, number);
                assert(numeral@ =~= text::decimal(number as nat));
                opaque(OpaqueKind::SelectionSet.name(), Some(numeral.as_str()))
            },
            None => opaque(OpaqueKind::SelectionSet.name(), None),
        };
        let result = self.structure.value(sink, text.as_str());
        await_room(sink, result)
    }

    pub fn vla_object(&mut self, sink: &mut OutputSink, class_name: Option<&str>) -> (result: Result<(), PrintError>)
        requires
            old(self).well_formed(),
            old(sink).well_formed(),
        ensures
            final(self).well_formed(),
            final(self).mode() == old(self).mode(),
            final(sink).well_formed(),
            printing::performed(
                old(self)@.value(old(sink)@.emit_result(), labelled_text(OpaqueKind::VlaObject, printing::optional_text(class_name), MAX_CLASS_NAME_BYTES as int)),
                final(self)@,
                old(sink)@,
                final(sink)@,
                result,
            ),
    {
        let text = labelled(OpaqueKind::VlaObject, class_name, MAX_CLASS_NAME_BYTES);
        let result = self.structure.value(sink, text.as_str());
        await_room(sink, result)
    }

    pub fn file(&mut self, sink: &mut OutputSink) -> (result: Result<(), PrintError>)
        requires
            old(self).well_formed(),
            old(sink).well_formed(),
        ensures
            final(self).well_formed(),
            final(self).mode() == old(self).mode(),
            final(sink).well_formed(),
            printing::performed(
                old(self)@.value(old(sink)@.emit_result(), printing::opaque_text(OpaqueKind::File.text(), None)),
                final(self)@,
                old(sink)@,
                final(sink)@,
                result,
            ),
    {
        let text = opaque(OpaqueKind::File.name(), None);
        let result = self.structure.value(sink, text.as_str());
        await_room(sink, result)
    }

    pub fn function(&mut self, sink: &mut OutputSink, name: Option<&str>) -> (result: Result<(), PrintError>)
        requires
            old(self).well_formed(),
            old(sink).well_formed(),
        ensures
            final(self).well_formed(),
            final(self).mode() == old(self).mode(),
            final(sink).well_formed(),
            printing::performed(
                old(self)@.value(old(sink)@.emit_result(), labelled_text(OpaqueKind::Function, printing::optional_text(name), MAX_FUNCTION_NAME_BYTES as int)),
                final(self)@,
                old(sink)@,
                final(sink)@,
                result,
            ),
    {
        let text = labelled(OpaqueKind::Function, name, MAX_FUNCTION_NAME_BYTES);
        let result = self.structure.value(sink, text.as_str());
        await_room(sink, result)
    }

    pub fn error_object(&mut self, sink: &mut OutputSink) -> (result: Result<(), PrintError>)
        requires
            old(self).well_formed(),
            old(sink).well_formed(),
        ensures
            final(self).well_formed(),
            final(self).mode() == old(self).mode(),
            final(sink).well_formed(),
            printing::performed(
                old(self)@.value(old(sink)@.emit_result(), printing::opaque_text(OpaqueKind::Error.text(), None)),
                final(self)@,
                old(sink)@,
                final(sink)@,
                result,
            ),
    {
        let text = opaque(OpaqueKind::Error.name(), None);
        let result = self.structure.value(sink, text.as_str());
        await_room(sink, result)
    }

    /// A value of a type that is not supported.
    pub fn unsupported(&mut self, sink: &mut OutputSink, native_type: Option<u32>) -> (result: Result<(), PrintError>)
        requires
            old(self).well_formed(),
            old(sink).well_formed(),
        ensures
            final(self).well_formed(),
            final(self).mode() == old(self).mode(),
            final(sink).well_formed(),
            printing::performed(
                old(self)@.value(old(sink)@.emit_result(), unsupported_text(native_type)),
                final(self)@,
                old(sink)@,
                final(sink)@,
                result,
            ),
    {
        let text = match native_type {
            Some(native_type) => {
                let mut label = "RT".to_owned();
                push_decimal(&mut label, native_type as u64);
                opaque(OpaqueKind::Object.name(), Some(label.as_str()))
            },
            None => opaque(OpaqueKind::Object.name(), None),
        };
        let result = self.structure.value(sink, text.as_str());
        await_room(sink, result)
    }

    pub fn void(&mut self, sink: &mut OutputSink) -> (result: Result<(), PrintError>)
        requires
            old(self).well_formed(),
            old(sink).well_formed(),
        ensures
            final(self).well_formed(),
            final(self).mode() == old(self).mode(),
            final(sink).well_formed(),
            printing::performed(
                old(self)@.value(old(sink)@.emit_result(), printing::opaque_text(OpaqueKind::Void.text(), None)),
                final(self)@,
                old(sink)@,
                final(sink)@,
                result,
            ),
    {
        let text = opaque(OpaqueKind::Void.name(), None);
        let result = self.structure.value(sink, text.as_str());
        await_room(sink, result)
    }

    /// Ends the printed values with a newline and makes them available to the
    /// reader. Where something is still open, only the latter.
    pub fn finish(self, sink: &mut OutputSink) -> (result: Result<(), PrintError>)
        requires
            self.well_formed(),
            old(sink).well_formed(),
        ensures
            final(sink).well_formed(),
            final(sink)@ == printing::finished_output(old(sink)@, self@.complete()),
            result == if !self@.complete() {
                Err(PrintError::InvalidSequence)
            } else {
                printing::awaited(printing::answer(old(sink)@.emit_result()), final(sink)@)
            },
            result is Ok ==> final(sink)@.pending.len() == 0,
    {
        let result = self.structure.finish(sink);
        await_room(sink, result)
    }
}

proof fn lemma_digits_end(text: Seq<char>, start: int, end: int)
    requires
        0 <= start <= end <= text.len(),
        forall|i: int| start <= i < end ==> text::decimal_digit(#[trigger] text[i]),
        end < text.len() ==> !text::decimal_digit(text[end]),
    ensures
        digits_end(text, start) == end,
    decreases end - start,
{
    if start < end {
        assert(text::decimal_digit(text[start]));
        lemma_digits_end(text, start + 1, end);
    }
}

/// Some digits, and nothing else.
pub open spec fn digits(text: Seq<char>) -> bool {
    &&& text.len() > 0
    &&& forall|i: int| 0 <= i < text.len() ==> '0' <= #[trigger] text[i] <= '9'
}

/// Nothing, or a sign.
pub open spec fn optional_sign(text: Seq<char>) -> bool {
    text.len() == 0 || (text.len() == 1 && (text[0] == '+' || text[0] == '-'))
}

/// A real number is accepted as AutoLISP writes it: perhaps a sign, digits on both sides of
/// a point, and perhaps a power of ten.
pub proof fn law_reals_are_accepted(
    sign: Seq<char>,
    whole: Seq<char>,
    fraction: Seq<char>,
    marker: char,
    power_sign: Seq<char>,
    power: Seq<char>,
)
    requires
        optional_sign(sign),
        digits(whole),
        digits(fraction),
        marker == 'e' || marker == 'E',
        optional_sign(power_sign),
        digits(power),
    ensures
        real_syntax(sign + whole + seq!['.'] + fraction),
        real_syntax(sign + whole + seq!['.'] + fraction + seq![marker] + power_sign + power),
        !real_syntax(sign + whole),
        !real_syntax(sign + whole + seq!['.']),
        !real_syntax(sign + seq!['.'] + fraction),
        !real_syntax(sign + whole + seq!['.'] + fraction + seq![marker] + power_sign),
{
    let start = sign.len() as int;
    let point = start + whole.len();
    let end = point + 1 + fraction.len();
    let plain = sign + whole + seq!['.'] + fraction;
    let long = plain + seq![marker] + power_sign + power;
    let open = plain + seq![marker] + power_sign;
    assert(plain.take(end) =~= plain);
    assert(long.take(end) =~= plain);
    assert(open.take(end) =~= plain);
    lemma_prefix(plain, sign, whole, fraction);
    lemma_prefix(long, sign, whole, fraction);
    lemma_prefix(open, sign, whole, fraction);
    assert forall|i: int| start <= i < point implies text::decimal_digit(#[trigger] plain[i]) by {
        assert(plain[i] == whole[i - start]);
    }
    assert(plain[point] == '.');
    assert forall|i: int| point < i < end implies text::decimal_digit(#[trigger] plain[i]) by {
        assert(plain[i] == fraction[i - point - 1]);
    }
    lemma_digits_end(plain, start, point);
    lemma_digits_end(plain, point + 1, end);
    assert(long[end] == marker && open[end] == marker);
    lemma_digits_end(long, start, point);
    lemma_digits_end(long, point + 1, end);
    lemma_digits_end(open, start, point);
    lemma_digits_end(open, point + 1, end);
    let first = end + 1 + power_sign.len();
    if power_sign.len() > 0 {
        assert(long[end + 1] == power_sign[0]);
        assert(open[end + 1] == power_sign[0]);
    } else {
        assert(long[end + 1] == power[0]);
    }
    assert forall|i: int| first <= i < long.len() implies text::decimal_digit(
        #[trigger] long[i],
    ) by {
        assert(long[i] == power[i - first]);
    }
    lemma_digits_end(long, first, long.len() as int);
    lemma_digits_end(open, first, open.len() as int);
    let bare = sign + whole;
    assert(sign.len() > 0 ==> bare[0] == sign[0]);
    assert(sign.len() == 0 ==> bare[0] == whole[0]);
    assert forall|i: int| start <= i < point implies text::decimal_digit(#[trigger] bare[i]) by {
        assert(bare[i] == whole[i - start]);
    }
    lemma_digits_end(bare, start, point);
    let cut = sign + whole + seq!['.'];
    assert(sign.len() > 0 ==> cut[0] == sign[0]);
    assert(sign.len() == 0 ==> cut[0] == whole[0]);
    assert forall|i: int| start <= i < point implies text::decimal_digit(#[trigger] cut[i]) by {
        assert(cut[i] == whole[i - start]);
    }
    assert(cut[point] == '.');
    lemma_digits_end(cut, start, point);
    lemma_digits_end(cut, point + 1, point + 1);
    let headless = sign + seq!['.'] + fraction;
    assert(headless[start] == '.');
    assert(sign.len() > 0 ==> headless[0] == sign[0]);
    lemma_digits_end(headless, start, start);
}

proof fn lemma_prefix(text: Seq<char>, sign: Seq<char>, whole: Seq<char>, fraction: Seq<char>)
    requires
        optional_sign(sign),
        digits(whole),
        digits(fraction),
        text.len() >= sign.len() + whole.len() + 1 + fraction.len(),
        text.take((sign.len() + whole.len() + 1 + fraction.len()) as int) == sign + whole + seq!['.']
            + fraction,
    ensures
        sign_at(text, 0) <==> sign.len() > 0,
        text[(sign.len() + whole.len()) as int] == '.',
        forall|i: int|
            sign.len() <= i < sign.len() + whole.len() ==> text::decimal_digit(#[trigger] text[i]),
        forall|i: int|
            sign.len() + whole.len() < i < sign.len() + whole.len() + 1 + fraction.len()
                ==> text::decimal_digit(#[trigger] text[i]),
{
    let count = (sign.len() + whole.len() + 1 + fraction.len()) as int;
    let start = sign.len() as int;
    let point = start + whole.len();
    let plain = sign + whole + seq!['.'] + fraction;
    assert forall|i: int| 0 <= i < count implies #[trigger] text[i] == plain[i] by {
        assert(text.take(count)[i] == text[i]);
    }
    assert(plain[point] == '.');
    assert forall|i: int| start <= i < point implies text::decimal_digit(#[trigger] text[i]) by {
        assert(plain[i] == whole[i - start]);
    }
    assert forall|i: int| point < i < count implies text::decimal_digit(#[trigger] text[i]) by {
        assert(plain[i] == fraction[i - point - 1]);
    }
    assert(sign.len() > 0 ==> plain[0] == sign[0]);
    assert(sign.len() == 0 ==> plain[0] == whole[0]);
}

/// A real number is printed as it was given where it is one, finite and at most 64 bytes
/// long; else it is refused. Two or three of them make a point, in parentheses.
pub proof fn law_reals_and_points_are_printed<'a>(
    structure: StructureView,
    first: RealToken<'a>,
    second: RealToken<'a>,
    third: RealToken<'a>,
)
    requires
        structure.atom is Idle,
        structure.skipped_lists == 0,
        structure.lists.len() == 0,
        !structure.counts_roots,
    ensures
        ({
            let status = EmitResult::Written;
            let lonely = structure.real_token(status, first);
            let flat = structure.point(status, seq![first, second]);
            let deep = structure.point(status, seq![first, second, third]);
            let lone = structure.point(status, seq![first]);
            &&& first.valid() <==> real_syntax(first.text@) && first.finite && text::byte_len(
                first.text@,
            ) <= 64
            &&& first.valid() ==> lonely.result is Ok && lonely.text == first.text@
            &&& !first.valid() ==> lonely.result is Err && lonely.text.len() == 0
            &&& first.valid() && second.valid() ==> flat.result is Ok && flat.text == "("@
                + first.text@ + " "@ + second.text@ + ")"@
            &&& !(first.valid() && second.valid()) ==> flat.result is Err && flat.text.len() == 0
            &&& first.valid() && second.valid() && third.valid() ==> deep.result is Ok
                && deep.text == "("@ + first.text@ + " "@ + second.text@ + " "@ + third.text@
                + ")"@
            &&& !third.valid() ==> deep.result is Err
            &&& lone.result is Err
        }),
{
    let status = EmitResult::Written;
    let two = seq![first, second];
    let three = seq![first, second, third];
    assert(Seq::<char>::empty() + first.text@ =~= first.text@);
    assert(two.drop_last() =~= seq![first]);
    assert(three.drop_last() =~= two);
    assert(coordinate_text(seq![first]) == first.text@);
    assert(coordinate_text(two) == first.text@ + " "@ + second.text@);
    assert(coordinate_text(three) == first.text@ + " "@ + second.text@ + " "@ + third.text@);
    assert(two[0] == first && two[1] == second);
    assert(three[0] == first && three[1] == second && three[2] == third);
    assert(first.valid() && second.valid() ==> point_syntax(two));
    assert(first.valid() && second.valid() && third.valid() ==> point_syntax(three));
    assert(structure.point(status, two).text =~= if point_syntax(two) {
        "("@ + first.text@ + " "@ + second.text@ + ")"@
    } else {
        Seq::empty()
    });
    assert(structure.point(status, three).text =~= if point_syntax(three) {
        "("@ + first.text@ + " "@ + second.text@ + " "@ + third.text@ + ")"@
    } else {
        Seq::empty()
    });
}

/// What values that cannot be read back are shown as.
pub proof fn law_opaque_values_are_named(handle: Seq<char>, number: u64, native_type: u32)
    ensures
        entity_text(None) == "#<"@ + "Entity"@ + ">"@,
        printing::handle_text(handle) ==> entity_text(Some(handle)) == "#<"@ + "Entity"@ + " "@
            + text::ascii_upper_text(handle) + ">"@,
        !printing::handle_text(handle) ==> entity_text(Some(handle)) == entity_text(None),
        selection_set_text(None) == "#<"@ + "SelectionSet"@ + ">"@,
        selection_set_text(Some(number)) == "#<"@ + "SelectionSet"@ + " "@ + text::decimal(
            number as nat,
        ) + ">"@,
        unsupported_text(None) == "#<"@ + "Object"@ + ">"@,
        unsupported_text(Some(native_type)) == "#<"@ + "Object"@ + " "@ + ("RT"@ + text::decimal(
            native_type as nat,
        )) + ">"@,
        depth_marker() == "#<"@ + "Object"@ + " "@ + "DepthLimit"@ + ">"@,
{
    crate::reading::law_decimal_reads_back(number as nat);
    crate::reading::law_decimal_reads_back(native_type as nat);
    reveal_strlit("DepthLimit");
}

/// A value with a label shows it where it can stand there: not empty, not too long, and
/// without the characters that would end it.
pub proof fn law_labels_are_shown(kind: OpaqueKind, label: Seq<char>, max_bytes: int)
    ensures
        labelled_text(kind, None, max_bytes) == "#<"@ + kind.text() + ">"@,
        printing::label_text(label, max_bytes) ==> labelled_text(kind, Some(label), max_bytes)
            == "#<"@ + kind.text() + " "@ + label + ">"@,
        !printing::label_text(label, max_bytes) ==> labelled_text(kind, Some(label), max_bytes)
            == "#<"@ + kind.text() + ">"@,
        printing::label_text(label, max_bytes) ==> 0 < label.len() && text::byte_len(label)
            <= max_bytes,
{
}

} // verus!
