//! The printer behind `actl:print`: values in the form that AutoLISP reads back.
use vstd::prelude::*;

use super::number::{format_autolisp_real, RealText};
use crate::exec::output::{OutputSink, OutputView, WriteResult};
use crate::execution::output::EmitResult;
use crate::printing;
use crate::printing::{
    await_room, opaque, valid_handle, valid_label, PrintFault, Printed, Structure, StructureView,
};
pub use crate::printing::{MAX_VALUE_DEPTH, MAX_VALUE_TEXT_BYTES};
use crate::text;
use crate::text::{ascii_uppercase, push_signed_decimal};

verus! {

pub const MAX_OBJECT_LABEL_BYTES: usize = 128;

/// Why an event was not printed. `Output(Blocked)` says that its text waits for room, and
/// that the channel has the final answer.
#[derive(Clone, Copy, Debug, PartialEq, Eq, Structural)]
pub enum PrintError {
    InvalidSequence,
    LimitExceeded,
    Output(WriteResult),
}

/// Prints values one event at a time.
pub struct ValuePrinter {
    structure: Structure,
}

/// A value that cannot be read back.
#[derive(Clone, Copy, Debug, PartialEq, Eq, Structural)]
pub enum OpaqueKind {
    Entity,
    SelectionSet,
    VlaObject,
    File,
    Function,
    Error,
    Object,
    Cycle,
    TooDeep,
}

impl OpaqueKind {
    pub open spec fn text(self) -> Seq<char> {
        match self {
            OpaqueKind::Entity => "Entity"@,
            OpaqueKind::SelectionSet => "SelectionSet"@,
            OpaqueKind::VlaObject => "VlaObject"@,
            OpaqueKind::File => "File"@,
            OpaqueKind::Function => "Function"@,
            OpaqueKind::Error => "Error"@,
            OpaqueKind::Object => "Object"@,
            OpaqueKind::Cycle => "Cycle"@,
            OpaqueKind::TooDeep => "TooDeep"@,
        }
    }

    pub fn name(self) -> (name: &'static str)
        ensures
            name@ == self.text(),
    {
        match self {
            OpaqueKind::Entity => "Entity",
            OpaqueKind::SelectionSet => "SelectionSet",
            OpaqueKind::VlaObject => "VlaObject",
            OpaqueKind::File => "File",
            OpaqueKind::Function => "Function",
            OpaqueKind::Error => "Error",
            OpaqueKind::Object => "Object",
            OpaqueKind::Cycle => "Cycle",
            OpaqueKind::TooDeep => "TooDeep",
        }
    }
}

/// The result of an event in the terms of the native side.
pub open spec fn reported(result: Result<(), PrintFault>) -> Result<(), PrintError> {
    match result {
        Ok(_) => Ok(()),
        Err(PrintFault::InvalidSequence) => Err(PrintError::InvalidSequence),
        Err(PrintFault::LimitExceeded) => Err(PrintError::LimitExceeded),
        Err(PrintFault::Output(EmitResult::Written)) => Err(
            PrintError::Output(WriteResult::Continue),
        ),
        Err(PrintFault::Output(EmitResult::Disconnected)) => Err(
            PrintError::Output(WriteResult::Disconnected),
        ),
        Err(PrintFault::Output(EmitResult::Cancelled)) => Err(
            PrintError::Output(WriteResult::Cancelled),
        ),
        Err(PrintFault::Output(EmitResult::Stopped)) => Err(
            PrintError::Output(WriteResult::Stopped),
        ),
        Err(PrintFault::Output(EmitResult::Finished)) => Err(
            PrintError::Output(WriteResult::Finished),
        ),
        Err(PrintFault::Output(EmitResult::Blocked)) => Err(
            PrintError::Output(WriteResult::Blocked),
        ),
    }
}

fn report(result: Result<(), PrintFault>) -> (mapped: Result<(), PrintError>)
    ensures
        mapped == reported(result),
{
    match result {
        Ok(_) => Ok(()),
        Err(PrintFault::InvalidSequence) => Err(PrintError::InvalidSequence),
        Err(PrintFault::LimitExceeded) => Err(PrintError::LimitExceeded),
        Err(PrintFault::Output(output)) => Err(
            PrintError::Output(
                match output {
                    EmitResult::Written => WriteResult::Continue,
                    EmitResult::Disconnected => WriteResult::Disconnected,
                    EmitResult::Cancelled => WriteResult::Cancelled,
                    EmitResult::Stopped => WriteResult::Stopped,
                    EmitResult::Finished => WriteResult::Finished,
                    EmitResult::Blocked => WriteResult::Blocked,
                },
            ),
        ),
    }
}

/// The printer and the channel are as the event leaves them.
pub open spec fn performed(
    printed: Printed,
    structure: StructureView,
    before: OutputView,
    after: OutputView,
    result: Result<(), PrintError>,
) -> bool {
    &&& structure == printed.structure
    &&& result == reported(printing::awaited(printed.result, after))
    &&& after.extended_by(before, printed.text)
}

/// An entity: by its handle where that is known, so that it can be read back.
pub open spec fn entity_text(handle: Option<Seq<char>>) -> Seq<char> {
    match handle {
        Some(handle) => if printing::handle_text(handle) {
            "(handent \""@ + text::ascii_upper_text(handle) + "\")"@
        } else {
            printing::opaque_text(OpaqueKind::Entity.text(), None)
        },
        None => printing::opaque_text(OpaqueKind::Entity.text(), None),
    }
}

/// An object of another kind, with its label where that can stand in the text.
pub open spec fn object_text(label: Option<Seq<char>>) -> Seq<char> {
    printing::opaque_text(
        OpaqueKind::Object.text(),
        match label {
            Some(label) => if printing::label_text(label, MAX_OBJECT_LABEL_BYTES as int) {
                Some(label)
            } else {
                None
            },
            None => None,
        },
    )
}

pub open spec fn kind_text(kind: OpaqueKind) -> Seq<char> {
    printing::opaque_text(kind.text(), None)
}

impl StructureView {
    /// A real number. One that cannot be printed is refused before all else.
    pub open spec fn real_number(self, status: EmitResult, number: RealText<'_>) -> Printed {
        match number.printed() {
            Some(text) => self.value(status, text),
            None => self.refused(PrintFault::InvalidSequence),
        }
    }
}

impl View for ValuePrinter {
    type V = StructureView;

    closed spec fn view(&self) -> StructureView {
        self.structure@
    }
}

impl ValuePrinter {
    pub closed spec fn well_formed(&self) -> bool {
        self.structure.well_formed()
    }

    pub fn new() -> (printer: ValuePrinter)
        ensures
            printer.well_formed(),
            printer@ == StructureView::empty(true),
    {
        ValuePrinter { structure: Structure::new(true) }
    }

    /// The number of values outside all lists.
    pub fn root_values(&self) -> (count: usize)
        ensures
            count == self@.root_values,
    {
        self.structure.root_values()
    }

    pub fn begin_list(&mut self, sink: &mut OutputSink) -> (result: Result<(), PrintError>)
        requires
            old(self).well_formed(),
            old(sink).well_formed(),
        ensures
            final(self).well_formed(),
            final(sink).well_formed(),
            performed(
                old(self)@.begin_list(old(sink)@.emit_result(), kind_text(OpaqueKind::TooDeep)),
                final(self)@,
                old(sink)@,
                final(sink)@,
                result,
            ),
    {
        let marker = opaque(OpaqueKind::TooDeep.name(), None);
        let result = self.structure.begin_list(sink, marker.as_str());
        report(await_room(sink, result))
    }

    pub fn end_list(&mut self, sink: &mut OutputSink) -> (result: Result<(), PrintError>)
        requires
            old(self).well_formed(),
            old(sink).well_formed(),
        ensures
            final(self).well_formed(),
            final(sink).well_formed(),
            performed(
                old(self)@.end_list(old(sink)@.emit_result()),
                final(self)@,
                old(sink)@,
                final(sink)@,
                result,
            ),
    {
        let result = self.structure.end_list(sink);
        report(await_room(sink, result))
    }

    pub fn dot(&mut self, sink: &mut OutputSink) -> (result: Result<(), PrintError>)
        requires
            old(self).well_formed(),
            old(sink).well_formed(),
        ensures
            final(self).well_formed(),
            final(sink).well_formed(),
            performed(
                old(self)@.dot(old(sink)@.emit_result()),
                final(self)@,
                old(sink)@,
                final(sink)@,
                result,
            ),
    {
        let result = self.structure.dot(sink);
        report(await_room(sink, result))
    }

    fn scalar(&mut self, sink: &mut OutputSink, text: &str) -> (result: Result<(), PrintError>)
        requires
            old(self).well_formed(),
            old(sink).well_formed(),
        ensures
            final(self).well_formed(),
            final(sink).well_formed(),
            performed(
                old(self)@.value(old(sink)@.emit_result(), text@),
                final(self)@,
                old(sink)@,
                final(sink)@,
                result,
            ),
    {
        let result = self.structure.value(sink, text);
        report(await_room(sink, result))
    }

    pub fn nil(&mut self, sink: &mut OutputSink) -> (result: Result<(), PrintError>)
        requires
            old(self).well_formed(),
            old(sink).well_formed(),
        ensures
            final(self).well_formed(),
            final(sink).well_formed(),
            performed(
                old(self)@.value(old(sink)@.emit_result(), "nil"@),
                final(self)@,
                old(sink)@,
                final(sink)@,
                result,
            ),
    {
        self.scalar(sink, "nil")
    }

    pub fn true_value(&mut self, sink: &mut OutputSink) -> (result: Result<(), PrintError>)
        requires
            old(self).well_formed(),
            old(sink).well_formed(),
        ensures
            final(self).well_formed(),
            final(sink).well_formed(),
            performed(
                old(self)@.value(old(sink)@.emit_result(), "T"@),
                final(self)@,
                old(sink)@,
                final(sink)@,
                result,
            ),
    {
        self.scalar(sink, "T")
    }

    pub fn integer(&mut self, sink: &mut OutputSink, value: i64) -> (result: Result<(), PrintError>)
        requires
            old(self).well_formed(),
            old(sink).well_formed(),
        ensures
            final(self).well_formed(),
            final(sink).well_formed(),
            performed(
                old(self)@.value(old(sink)@.emit_result(), text::signed_decimal(value as int)),
                final(self)@,
                old(sink)@,
                final(sink)@,
                result,
            ),
    {
        let mut text = String::new();
        push_signed_decimal(&mut text, value);
        assert(text@ =~= text::signed_decimal(value as int));
        self.scalar(sink, text.as_str())
    }

    pub fn real_number(&mut self, sink: &mut OutputSink, value: RealText<'_>) -> (result: Result<
        (),
        PrintError,
    >)
        requires
            old(self).well_formed(),
            old(sink).well_formed(),
        ensures
            final(self).well_formed(),
            final(sink).well_formed(),
            performed(
                old(self)@.real_number(old(sink)@.emit_result(), value),
                final(self)@,
                old(sink)@,
                final(sink)@,
                result,
            ),
    {
        assert(sink@.extended(Seq::empty()) == sink@) by {
            crate::execution::output::law_nothing_is_added(sink@);
        }
        match format_autolisp_real(value) {
            Some(text) => self.scalar(sink, text.as_str()),
            None => Err(PrintError::InvalidSequence),
        }
    }

    pub fn begin_symbol(&mut self, sink: &mut OutputSink) -> (result: Result<(), PrintError>)
        requires
            old(self).well_formed(),
            old(sink).well_formed(),
        ensures
            final(self).well_formed(),
            final(sink).well_formed(),
            performed(
                old(self)@.begin_symbol(old(sink)@.emit_result()),
                final(self)@,
                old(sink)@,
                final(sink)@,
                result,
            ),
    {
        let result = self.structure.begin_symbol(sink);
        report(await_room(sink, result))
    }

    pub fn symbol_chunk(&mut self, sink: &mut OutputSink, text: &str) -> (result: Result<
        (),
        PrintError,
    >)
        requires
            old(self).well_formed(),
            old(sink).well_formed(),
        ensures
            final(self).well_formed(),
            final(sink).well_formed(),
            performed(
                old(self)@.symbol_chunk(old(sink)@.emit_result(), text@, true),
                final(self)@,
                old(sink)@,
                final(sink)@,
                result,
            ),
    {
        let result = self.structure.symbol_chunk(sink, text, true);
        report(await_room(sink, result))
    }

    pub fn end_symbol(&mut self, sink: &mut OutputSink) -> (result: Result<(), PrintError>)
        requires
            old(self).well_formed(),
            old(sink).well_formed(),
        ensures
            final(self).well_formed(),
            final(sink).well_formed(),
            performed(
                old(self)@.end_symbol(old(sink)@.emit_result()),
                final(self)@,
                old(sink)@,
                final(sink)@,
                result,
            ),
    {
        let result = self.structure.end_symbol(sink);
        report(await_room(sink, result))
    }

    pub fn begin_string(&mut self, sink: &mut OutputSink) -> (result: Result<(), PrintError>)
        requires
            old(self).well_formed(),
            old(sink).well_formed(),
        ensures
            final(self).well_formed(),
            final(sink).well_formed(),
            performed(
                old(self)@.begin_string(old(sink)@.emit_result(), true),
                final(self)@,
                old(sink)@,
                final(sink)@,
                result,
            ),
    {
        let result = self.structure.begin_string(sink, true);
        report(await_room(sink, result))
    }

    pub fn string_chunk(&self, sink: &mut OutputSink, text: &str) -> (result: Result<
        (),
        PrintError,
    >)
        requires
            self.well_formed(),
            old(sink).well_formed(),
        ensures
            final(sink).well_formed(),
            performed(
                self@.string_chunk(old(sink)@.emit_result(), text@, true),
                self@,
                old(sink)@,
                final(sink)@,
                result,
            ),
    {
        let result = self.structure.string_chunk(sink, text, true);
        report(await_room(sink, result))
    }

    pub fn end_string(&mut self, sink: &mut OutputSink) -> (result: Result<(), PrintError>)
        requires
            old(self).well_formed(),
            old(sink).well_formed(),
        ensures
            final(self).well_formed(),
            final(sink).well_formed(),
            performed(
                old(self)@.end_string(old(sink)@.emit_result(), true),
                final(self)@,
                old(sink)@,
                final(sink)@,
                result,
            ),
    {
        let result = self.structure.end_string(sink, true);
        report(await_room(sink, result))
    }

    pub fn entity(&mut self, sink: &mut OutputSink, handle: Option<&str>) -> (result: Result<
        (),
        PrintError,
    >)
        requires
            old(self).well_formed(),
            old(sink).well_formed(),
        ensures
            final(self).well_formed(),
            final(sink).well_formed(),
            performed(
                old(self)@.value(
                    old(sink)@.emit_result(),
                    entity_text(printing::optional_text(handle)),
                ),
                final(self)@,
                old(sink)@,
                final(sink)@,
                result,
            ),
    {
        let known = match handle {
            Some(handle) => if valid_handle(handle) {
                Some(ascii_uppercase(handle))
            } else {
                None
            },
            None => None,
        };
        match known {
            Some(handle) => {
                let mut text = "(handent \"".to_owned();
                text.push_str(handle.as_str());
                text.push_str("\")");
                self.scalar(sink, text.as_str())
            },
            None => self.opaque_value(sink, OpaqueKind::Entity),
        }
    }

    fn opaque_value(&mut self, sink: &mut OutputSink, kind: OpaqueKind) -> (result: Result<
        (),
        PrintError,
    >)
        requires
            old(self).well_formed(),
            old(sink).well_formed(),
        ensures
            final(self).well_formed(),
            final(sink).well_formed(),
            performed(
                old(self)@.value(old(sink)@.emit_result(), kind_text(kind)),
                final(self)@,
                old(sink)@,
                final(sink)@,
                result,
            ),
    {
        let text = opaque(kind.name(), None);
        self.scalar(sink, text.as_str())
    }

    pub fn selection_set(&mut self, sink: &mut OutputSink) -> (result: Result<(), PrintError>)
        requires
            old(self).well_formed(),
            old(sink).well_formed(),
        ensures
            final(self).well_formed(),
            final(sink).well_formed(),
            performed(
                old(self)@.value(old(sink)@.emit_result(), kind_text(OpaqueKind::SelectionSet)),
                final(self)@,
                old(sink)@,
                final(sink)@,
                result,
            ),
    {
        self.opaque_value(sink, OpaqueKind::SelectionSet)
    }

    pub fn vla_object(&mut self, sink: &mut OutputSink) -> (result: Result<(), PrintError>)
        requires
            old(self).well_formed(),
            old(sink).well_formed(),
        ensures
            final(self).well_formed(),
            final(sink).well_formed(),
            performed(
                old(self)@.value(old(sink)@.emit_result(), kind_text(OpaqueKind::VlaObject)),
                final(self)@,
                old(sink)@,
                final(sink)@,
                result,
            ),
    {
        self.opaque_value(sink, OpaqueKind::VlaObject)
    }

    pub fn file(&mut self, sink: &mut OutputSink) -> (result: Result<(), PrintError>)
        requires
            old(self).well_formed(),
            old(sink).well_formed(),
        ensures
            final(self).well_formed(),
            final(sink).well_formed(),
            performed(
                old(self)@.value(old(sink)@.emit_result(), kind_text(OpaqueKind::File)),
                final(self)@,
                old(sink)@,
                final(sink)@,
                result,
            ),
    {
        self.opaque_value(sink, OpaqueKind::File)
    }

    pub fn function(&mut self, sink: &mut OutputSink) -> (result: Result<(), PrintError>)
        requires
            old(self).well_formed(),
            old(sink).well_formed(),
        ensures
            final(self).well_formed(),
            final(sink).well_formed(),
            performed(
                old(self)@.value(old(sink)@.emit_result(), kind_text(OpaqueKind::Function)),
                final(self)@,
                old(sink)@,
                final(sink)@,
                result,
            ),
    {
        self.opaque_value(sink, OpaqueKind::Function)
    }

    pub fn error_object(&mut self, sink: &mut OutputSink) -> (result: Result<(), PrintError>)
        requires
            old(self).well_formed(),
            old(sink).well_formed(),
        ensures
            final(self).well_formed(),
            final(sink).well_formed(),
            performed(
                old(self)@.value(old(sink)@.emit_result(), kind_text(OpaqueKind::Error)),
                final(self)@,
                old(sink)@,
                final(sink)@,
                result,
            ),
    {
        self.opaque_value(sink, OpaqueKind::Error)
    }

    pub fn object(&mut self, sink: &mut OutputSink, label: Option<&str>) -> (result: Result<
        (),
        PrintError,
    >)
        requires
            old(self).well_formed(),
            old(sink).well_formed(),
        ensures
            final(self).well_formed(),
            final(sink).well_formed(),
            performed(
                old(self)@.value(
                    old(sink)@.emit_result(),
                    object_text(printing::optional_text(label)),
                ),
                final(self)@,
                old(sink)@,
                final(sink)@,
                result,
            ),
    {
        let shown = match label {
            Some(label) => if valid_label(label, MAX_OBJECT_LABEL_BYTES) {
                Some(label)
            } else {
                None
            },
            None => None,
        };
        let text = opaque(OpaqueKind::Object.name(), shown);
        self.scalar(sink, text.as_str())
    }

    pub fn cycle(&mut self, sink: &mut OutputSink) -> (result: Result<(), PrintError>)
        requires
            old(self).well_formed(),
            old(sink).well_formed(),
        ensures
            final(self).well_formed(),
            final(sink).well_formed(),
            performed(
                old(self)@.value(old(sink)@.emit_result(), kind_text(OpaqueKind::Cycle)),
                final(self)@,
                old(sink)@,
                final(sink)@,
                result,
            ),
    {
        self.opaque_value(sink, OpaqueKind::Cycle)
    }

    pub fn too_deep(&mut self, sink: &mut OutputSink) -> (result: Result<(), PrintError>)
        requires
            old(self).well_formed(),
            old(sink).well_formed(),
        ensures
            final(self).well_formed(),
            final(sink).well_formed(),
            performed(
                old(self)@.value(old(sink)@.emit_result(), kind_text(OpaqueKind::TooDeep)),
                final(self)@,
                old(sink)@,
                final(sink)@,
                result,
            ),
    {
        self.opaque_value(sink, OpaqueKind::TooDeep)
    }

    /// Ends the printed values with a newline and makes them available to the
    /// reader. Where something is still open, only the latter.
    pub fn finish(self, sink: &mut OutputSink) -> (result: Result<(), PrintError>)
        requires
            self.well_formed(),
            old(sink).well_formed(),
        ensures
            final(sink).well_formed(),
            final(sink)@ == printing::finished_output(old(sink)@, self@.complete()),
            result == if !self@.complete() {
                Err(PrintError::InvalidSequence)
            } else {
                reported(
                    printing::awaited(printing::answer(old(sink)@.emit_result()), final(sink)@),
                )
            },
            result is Ok ==> final(sink)@.pending.len() == 0,
    {
        let result = self.structure.finish(sink);
        report(await_room(sink, result))
    }
}

} // verus!
