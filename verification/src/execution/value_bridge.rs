//! The writer of the one value that an evaluation returns.
use vstd::prelude::*;

use crate::exec::io::{ExecIo, ValueBridgeFailure, ValueBridgeState, ValueOutputLease};
use crate::exec::output::{emit, resume};
pub use crate::exec::output::WriteResult;
use crate::exec::value::event;
use crate::exec::value::number::RealText;
use crate::exec::value::port;
use crate::exec::value::port::print_event;
use crate::exec::value::printer;
use crate::exec::value::printer::{PrintError, ValuePrinter};
use crate::printing;
use crate::printing::StructureView;
use crate::execution::output;
use crate::execution::output::{EmitResult, OutputView};

verus! {

/// One event of a value, or one that makes no sense.
#[derive(Clone, Copy, Debug, PartialEq, Eq)]
pub enum ValueEvent<'a> {
    Invalid,
    BeginList,
    EndList,
    Dot,
    Nil,
    True,
    Integer(i64),
    Real(RealText<'a>),
    BeginString,
    StringChunk(&'a str),
    EndString,
    BeginSymbol,
    SymbolChunk(&'a str),
    EndSymbol,
    Entity(Option<&'a str>),
    SelectionSet,
    VlaObject,
    File,
    Function,
    ErrorObject,
    Object(Option<&'a str>),
    Cycle,
    TooDeep,
}

impl<'a> ValueEvent<'a> {
    /// The event, if it is one.
    pub open spec fn known(self) -> Option<event::ValueEvent<'a>> {
        match self {
            ValueEvent::Invalid => None,
            ValueEvent::BeginList => Some(event::ValueEvent::BeginList),
            ValueEvent::EndList => Some(event::ValueEvent::EndList),
            ValueEvent::Dot => Some(event::ValueEvent::Dot),
            ValueEvent::Nil => Some(event::ValueEvent::Nil),
            ValueEvent::True => Some(event::ValueEvent::True),
            ValueEvent::Integer(payload) => Some(event::ValueEvent::Integer(payload)),
            ValueEvent::Real(payload) => Some(event::ValueEvent::Real(payload)),
            ValueEvent::BeginString => Some(event::ValueEvent::BeginString),
            ValueEvent::StringChunk(payload) => Some(event::ValueEvent::StringChunk(payload)),
            ValueEvent::EndString => Some(event::ValueEvent::EndString),
            ValueEvent::BeginSymbol => Some(event::ValueEvent::BeginSymbol),
            ValueEvent::SymbolChunk(payload) => Some(event::ValueEvent::SymbolChunk(payload)),
            ValueEvent::EndSymbol => Some(event::ValueEvent::EndSymbol),
            ValueEvent::Entity(payload) => Some(event::ValueEvent::Entity(payload)),
            ValueEvent::SelectionSet => Some(event::ValueEvent::SelectionSet),
            ValueEvent::VlaObject => Some(event::ValueEvent::VlaObject),
            ValueEvent::File => Some(event::ValueEvent::File),
            ValueEvent::Function => Some(event::ValueEvent::Function),
            ValueEvent::ErrorObject => Some(event::ValueEvent::ErrorObject),
            ValueEvent::Object(payload) => Some(event::ValueEvent::Object(payload)),
            ValueEvent::Cycle => Some(event::ValueEvent::Cycle),
            ValueEvent::TooDeep => Some(event::ValueEvent::TooDeep),
        }
    }

    fn into_known(self) -> (known: Option<event::ValueEvent<'a>>)
        ensures
            known == self.known(),
    {
        match self {
            ValueEvent::Invalid => None,
            ValueEvent::BeginList => Some(event::ValueEvent::BeginList),
            ValueEvent::EndList => Some(event::ValueEvent::EndList),
            ValueEvent::Dot => Some(event::ValueEvent::Dot),
            ValueEvent::Nil => Some(event::ValueEvent::Nil),
            ValueEvent::True => Some(event::ValueEvent::True),
            ValueEvent::Integer(payload) => Some(event::ValueEvent::Integer(payload)),
            ValueEvent::Real(payload) => Some(event::ValueEvent::Real(payload)),
            ValueEvent::BeginString => Some(event::ValueEvent::BeginString),
            ValueEvent::StringChunk(payload) => Some(event::ValueEvent::StringChunk(payload)),
            ValueEvent::EndString => Some(event::ValueEvent::EndString),
            ValueEvent::BeginSymbol => Some(event::ValueEvent::BeginSymbol),
            ValueEvent::SymbolChunk(payload) => Some(event::ValueEvent::SymbolChunk(payload)),
            ValueEvent::EndSymbol => Some(event::ValueEvent::EndSymbol),
            ValueEvent::Entity(payload) => Some(event::ValueEvent::Entity(payload)),
            ValueEvent::SelectionSet => Some(event::ValueEvent::SelectionSet),
            ValueEvent::VlaObject => Some(event::ValueEvent::VlaObject),
            ValueEvent::File => Some(event::ValueEvent::File),
            ValueEvent::Function => Some(event::ValueEvent::Function),
            ValueEvent::ErrorObject => Some(event::ValueEvent::ErrorObject),
            ValueEvent::Object(payload) => Some(event::ValueEvent::Object(payload)),
            ValueEvent::Cycle => Some(event::ValueEvent::Cycle),
            ValueEvent::TooDeep => Some(event::ValueEvent::TooDeep),
        }
    }
}

pub struct NativeValueWriter {
    printer: Option<ValuePrinter>,
    lease: Option<ValueOutputLease>,
    result: WriteResult,
    ending: bool,
}

#[verifier::ext_equal]
pub struct WriterView {
    pub printer: Option<StructureView>,
    pub lease: Option<ValueOutputLease>,
    pub result: WriteResult,
    /// The end of the value waits for room.
    pub ending: bool,
}

/// What an operation does to a writer and to the bridge, which text it writes, whether
/// that is made available to the reader at once, and the answer.
#[verifier::ext_equal]
pub struct WriterStep {
    pub writer: WriterView,
    pub bridge: ValueBridgeState,
    pub text: Seq<char>,
    pub flush: bool,
    pub answer: WriteResult,
}

impl WriterStep {
    /// The channel after the operation.
    pub open spec fn output(self, before: OutputView) -> OutputView {
        if self.flush {
            before.extended(self.text).flushed()
        } else {
            before.extended(self.text)
        }
    }

    /// The answer, where the operation left the channel like this: text that waits for
    /// room has no final answer yet.
    pub open spec fn answered(self, after: OutputView) -> WriteResult {
        if self.answer is Continue && after.blocked() {
            WriteResult::Blocked
        } else {
            self.answer
        }
    }
}

/// What an answer means for the bridge.
pub open spec fn answer_failure(answer: WriteResult) -> Option<ValueBridgeFailure> {
    match answer {
        WriteResult::InvalidSequence => Some(ValueBridgeFailure::InvalidSequence),
        WriteResult::LimitExceeded => Some(ValueBridgeFailure::LimitExceeded),
        WriteResult::Finished => Some(ValueBridgeFailure::OutputFinished),
        WriteResult::Cancelled => Some(ValueBridgeFailure::PostCommitCancelled),
        _ => None,
    }
}

impl WriterView {
    pub open spec fn active(self, bridge: ValueBridgeState) -> bool {
        self.result is Continue && (self.lease matches Some(lease) && bridge.grants(lease))
    }

    /// The writer gives its claim back and writes nothing any more.
    pub open spec fn retired(self, bridge: ValueBridgeState, answer: WriteResult) -> WriterStep {
        WriterStep {
            writer: WriterView { printer: None, lease: None, result: answer, ending: false },
            bridge: match self.lease {
                Some(lease) => bridge.released(lease, answer_failure(answer)),
                None => bridge,
            },
            text: Seq::empty(),
            flush: false,
            answer,
        }
    }

    pub open spec fn kept(self, bridge: ValueBridgeState) -> WriterStep {
        WriterStep {
            writer: self,
            bridge,
            text: Seq::empty(),
            flush: false,
            answer: self.result,
        }
    }

    /// The writer after the channel was asked again for text that waits, and answered so.
    pub open spec fn resumed(self, bridge: ValueBridgeState, answer: WriteResult) -> WriterStep {
        if !(self.result is Continue) {
            self.kept(bridge)
        } else if answer is Blocked || (answer is Continue && !self.ending) {
            WriterStep { answer, ..self.kept(bridge) }
        } else {
            self.retired(bridge, answer)
        }
    }

    /// An event.
    pub open spec fn written(
        self,
        bridge: ValueBridgeState,
        status: EmitResult,
        event: ValueEvent<'_>,
    ) -> WriterStep {
        if !(self.result is Continue) {
            self.kept(bridge)
        } else if !self.active(bridge) {
            self.retired(bridge, WriteResult::Inactive)
        } else {
            match (self.printer, event.known()) {
                (Some(structure), Some(known)) => {
                    let printed = port::value_printed(structure, status, known);
                    match printer::reported(printed.result) {
                        Ok(_) => WriterStep {
                            writer: WriterView { printer: Some(printed.structure), ..self },
                            bridge,
                            text: printed.text,
                            flush: false,
                            answer: WriteResult::Continue,
                        },
                        Err(error) => WriterStep {
                            text: printed.text,
                            ..self.retired(bridge, port::fault_answer(error))
                        },
                    }
                },
                _ => self.retired(bridge, WriteResult::InvalidSequence),
            }
        }
    }

    /// The end: exactly one complete value has to be there. The claim is given back once
    /// the value has entered the channel.
    pub open spec fn finished(self, bridge: ValueBridgeState, output: OutputView) -> WriterStep {
        if !(self.result is Continue) {
            self.kept(bridge)
        } else if !self.active(bridge) {
            self.retired(bridge, WriteResult::Inactive)
        } else {
            match self.printer {
                None => self.retired(bridge, WriteResult::InvalidSequence),
                Some(structure) => if structure.root_values != 1 {
                    self.retired(bridge, WriteResult::InvalidSequence)
                } else if !structure.complete() {
                    WriterStep {
                        flush: true,
                        ..self.retired(bridge, WriteResult::InvalidSequence)
                    }
                } else {
                    match printer::reported(printing::answer(output.emit_result())) {
                        Ok(_) => if output.extended("\n"@).flushed().blocked() {
                            WriterStep {
                                writer: WriterView { printer: None, ending: true, ..self },
                                bridge,
                                text: "\n"@,
                                flush: true,
                                answer: WriteResult::Blocked,
                            }
                        } else {
                            WriterStep {
                                text: "\n"@,
                                flush: true,
                                ..self.retired(bridge, WriteResult::Continue)
                            }
                        },
                        Err(error) => self.retired(bridge, port::fault_answer(error)),
                    }
                },
            }
        }
    }
}

/// A writer that finished without complaint, or waits to, had one complete value, which is
/// readable once it has finished.
pub proof fn law_finished_writer_had_one_value(
    writer: WriterView,
    bridge: ValueBridgeState,
    output: OutputView,
)
    requires
        output.bounded(),
        writer.result is Continue,
        writer.finished(bridge, output).answer is Continue || writer.finished(
            bridge,
            output,
        ).answer is Blocked,
    ensures
        writer.printer matches Some(structure) && structure.root_values == 1
            && structure.complete(),
        writer.finished(bridge, output).answer is Continue ==> writer.finished(
            bridge,
            output,
        ).output(output).pending.len() == 0,
        writer.finished(bridge, output).writer.ending <==> writer.finished(
            bridge,
            output,
        ).answer is Blocked,
{
    output::law_parts_join(output, "\n"@, Seq::empty());
}

impl View for NativeValueWriter {
    type V = WriterView;

    closed spec fn view(&self) -> WriterView {
        WriterView {
            printer: match self.printer {
                Some(printer) => Some(printer@),
                None => None,
            },
            lease: self.lease,
            result: self.result,
            ending: self.ending,
        }
    }
}

impl NativeValueWriter {
    pub closed spec fn well_formed(&self) -> bool {
        self.printer matches Some(printer) ==> printer.well_formed()
    }

    /// A writer that belongs to no execution.
    pub fn inactive() -> (writer: NativeValueWriter)
        ensures
            writer.well_formed(),
            writer@ == (WriterView {
                printer: None,
                lease: None,
                result: WriteResult::Inactive,
                ending: false,
            }),
    {
        NativeValueWriter {
            printer: None,
            lease: None,
            result: WriteResult::Inactive,
            ending: false,
        }
    }

    /// A writer for the value of an evaluation. Where output is not wanted any
    /// more, the claim is given back at once.
    pub fn eval_value(lease: ValueOutputLease, io: &mut ExecIo) -> (writer: NativeValueWriter)
        requires
            old(io).output.well_formed(),
        ensures
            writer.well_formed(),
            final(io).output.well_formed(),
            final(io).output@ == old(io).output@,
            ({
                let result = old(io).output@.write_status();
                let fresh = WriterView {
                    printer: Some(StructureView::empty(true)),
                    lease: Some(lease),
                    result,
                    ending: false,
                };
                if result is Continue {
                    &&& writer@ == fresh
                    &&& final(io).bridge == old(io).bridge
                } else {
                    &&& writer@ == fresh.retired(old(io).bridge, result).writer
                    &&& final(io).bridge == fresh.retired(old(io).bridge, result).bridge
                }
            }),
    {
        proof {
            reveal_strlit("");
            assert(""@ =~= Seq::<char>::empty());
            output::law_nothing_is_added(io.output@);
        }
        let result = emit(&mut io.output, "");
        let mut writer = NativeValueWriter {
            printer: Some(ValuePrinter::new()),
            lease: Some(lease),
            result,
            ending: false,
        };
        if result != WriteResult::Continue {
            writer.retire(io, result);
        }
        writer
    }

    pub fn result(&self) -> (result: WriteResult)
        ensures
            result == self@.result,
    {
        self.result
    }

    /// Whether an event would be taken.
    pub fn active(&self, io: &ExecIo) -> (result: bool)
        ensures
            result == self@.active(io.bridge),
    {
        self.result == WriteResult::Continue && match &self.lease {
            Some(lease) => lease.is_open(io),
            None => false,
        }
    }

    /// Takes an event.
    pub fn write(&mut self, io: &mut ExecIo, event: ValueEvent<'_>) -> (answer: WriteResult)
        requires
            old(self).well_formed(),
            old(io).output.well_formed(),
        ensures
            final(self).well_formed(),
            final(io).output.well_formed(),
            ({
                let step = old(self)@.written(
                    old(io).bridge,
                    old(io).output@.emit_result(),
                    event,
                );
                &&& final(self)@ == step.writer
                &&& final(io).bridge == step.bridge
                &&& final(io).output@ == step.output(old(io).output@)
                &&& answer == step.answered(final(io).output@)
            }),
    {
        proof {
            output::law_nothing_is_added(io.output@);
        }
        if self.result != WriteResult::Continue {
            return self.result;
        }
        if !self.active(io) {
            self.retire(io, WriteResult::Inactive);
            return self.result;
        }
        let mut printer = match self.printer.take() {
            Some(printer) => printer,
            None => {
                self.retire(io, WriteResult::InvalidSequence);
                return self.result;
            },
        };
        let known = match event.into_known() {
            Some(known) => known,
            None => {
                self.retire(io, WriteResult::InvalidSequence);
                return self.result;
            },
        };
        let result = print_event(&mut printer, io, known);
        match result {
            Ok(_) => {
                self.printer = Some(printer);
                WriteResult::Continue
            },
            Err(PrintError::Output(WriteResult::Blocked)) => {
                self.printer = Some(printer);
                WriteResult::Blocked
            },
            Err(error) => {
                self.retire(io, print_answer(error));
                self.result
            },
        }
    }

    /// Asks the channel again for what waits for room, and gives the final answer, or says
    /// that it still waits.
    pub fn resume(&mut self, io: &mut ExecIo) -> (answer: WriteResult)
        requires
            old(self).well_formed(),
            old(io).output.well_formed(),
        ensures
            final(self).well_formed(),
            final(io).output.well_formed(),
            final(io).output@ == old(io).output@.resumed(),
            ({
                let step = old(self)@.resumed(old(io).bridge, final(io).output@.write_answer());
                &&& final(self)@ == step.writer
                &&& final(io).bridge == step.bridge
                &&& answer == step.answer
            }),
    {
        let result = resume(&mut io.output);
        if self.result != WriteResult::Continue {
            return self.result;
        }
        if result == WriteResult::Blocked || (result == WriteResult::Continue && !self.ending) {
            return result;
        }
        self.retire(io, result);
        self.result
    }

    /// Ends the value.
    pub fn finish(&mut self, io: &mut ExecIo) -> (answer: WriteResult)
        requires
            old(self).well_formed(),
            old(io).output.well_formed(),
        ensures
            final(self).well_formed(),
            final(io).output.well_formed(),
            ({
                let step = old(self)@.finished(old(io).bridge, old(io).output@);
                &&& final(self)@ == step.writer
                &&& final(io).bridge == step.bridge
                &&& final(io).output@ == step.output(old(io).output@)
                &&& answer == step.answer
            }),
    {
        proof {
            output::law_nothing_is_added(io.output@);
        }
        if self.result != WriteResult::Continue {
            return self.result;
        }
        if !self.active(io) {
            self.retire(io, WriteResult::Inactive);
            return self.result;
        }
        let printer = match self.printer.take() {
            Some(printer) => printer,
            None => {
                self.retire(io, WriteResult::InvalidSequence);
                return self.result;
            },
        };
        if printer.root_values() != 1 {
            self.retire(io, WriteResult::InvalidSequence);
            return self.result;
        }
        let result = printer.finish(&mut io.output);
        match result {
            Ok(_) => self.retire(io, WriteResult::Continue),
            Err(PrintError::Output(WriteResult::Blocked)) => {
                self.ending = true;
                return WriteResult::Blocked;
            },
            Err(error) => self.retire(io, print_answer(error)),
        }
        self.result
    }

    /// Drops the writer without ending its value.
    pub fn abandon(self, io: &mut ExecIo)
        ensures
            final(io).output == old(io).output,
            final(io).bridge == match self@.lease {
                Some(lease) => old(io).bridge.released(lease, Some(ValueBridgeFailure::Abandoned)),
                None => old(io).bridge,
            },
    {
        if let Some(lease) = self.lease {
            lease.release(io, Some(ValueBridgeFailure::Abandoned));
        }
    }

    fn retire(&mut self, io: &mut ExecIo, result: WriteResult)
        ensures
            final(self).well_formed(),
            final(self)@ == old(self)@.retired(old(io).bridge, result).writer,
            final(io).bridge == old(self)@.retired(old(io).bridge, result).bridge,
            final(io).output == old(io).output,
    {
        self.printer = None;
        if let Some(lease) = self.lease.take() {
            lease.release(io, write_failure(result));
        }
        self.result = result;
        self.ending = false;
    }
}

fn print_answer(error: PrintError) -> (answer: WriteResult)
    ensures
        answer == port::fault_answer(error),
{
    match error {
        PrintError::InvalidSequence => WriteResult::InvalidSequence,
        PrintError::LimitExceeded => WriteResult::LimitExceeded,
        PrintError::Output(result) => result,
    }
}

fn write_failure(result: WriteResult) -> (failure: Option<ValueBridgeFailure>)
    ensures
        failure == answer_failure(result),
{
    match result {
        WriteResult::InvalidSequence => Some(ValueBridgeFailure::InvalidSequence),
        WriteResult::LimitExceeded => Some(ValueBridgeFailure::LimitExceeded),
        WriteResult::Finished => Some(ValueBridgeFailure::OutputFinished),
        WriteResult::Cancelled => Some(ValueBridgeFailure::PostCommitCancelled),
        WriteResult::Continue
        | WriteResult::Inactive
        | WriteResult::Disconnected
        | WriteResult::Stopped
        | WriteResult::Blocked => None,
    }
}

/// A writer that holds the bridge and has answered nothing but that output is wanted.
pub open spec fn in_order(writer: WriterView, bridge: ValueBridgeState) -> bool {
    &&& writer.result is Continue
    &&& writer.lease matches Some(lease) && {
        &&& bridge.open_kind == Some(lease.kind)
        &&& bridge.generation == lease.generation
        &&& bridge.port_active
        &&& bridge.failure is None
    }
}

/// The writer has answered for the last time, gives the bridge back, and writes nothing any
/// more.
pub open spec fn gone(step: WriterStep, answer: WriteResult) -> bool {
    &&& step.answer == answer
    &&& step.writer.result == answer
    &&& step.writer.printer is None
    &&& step.writer.lease is None
}

/// A writer prints what a port prints. One that has lost the bridge says that it is
/// inactive, what no event stands for is refused, and a writer that has answered otherwise
/// once keeps to its answer.
pub proof fn law_writer_prints_values(
    writer: WriterView,
    bridge: ValueBridgeState,
    structure: StructureView,
    event: ValueEvent<'_>,
    known: event::ValueEvent<'_>,
)
    requires
        event.known() == Some(known),
        writer.printer == Some(structure),
    ensures
        ({
            let status = EmitResult::Written;
            let step = writer.written(bridge, status, event);
            let printed = port::value_printed(structure, status, known);
            &&& in_order(writer, bridge) && printed.result is Ok ==> {
                &&& step.text == printed.text
                &&& step.answer is Continue
                &&& step.writer.printer == Some(printed.structure)
                &&& step.writer.lease == writer.lease
                &&& step.bridge == bridge
            }
            &&& in_order(writer, bridge) && printed.result is Err ==> step.text == printed.text
                && gone(step, step.answer)
            &&& writer.result is Continue && !in_order(writer, bridge) ==> gone(
                step,
                WriteResult::Inactive,
            ) && step.text.len() == 0
            &&& !(writer.result is Continue) ==> step.answer == writer.result && step.text.len()
                == 0 && step.writer == writer && step.bridge == bridge
            &&& in_order(writer, bridge) ==> gone(
                writer.written(bridge, status, ValueEvent::Invalid),
                WriteResult::InvalidSequence,
            )
        }),
{
}

/// A value ends with a newline where exactly one was printed and nothing is open: the
/// bridge is given back, at once or when what waits has found room. Else the end is refused.
pub proof fn law_writer_ends_with_its_value(
    writer: WriterView,
    bridge: ValueBridgeState,
    structure: StructureView,
    output: OutputView,
)
    requires
        in_order(writer, bridge),
        writer.printer == Some(structure),
        output.emit_result() is Written,
    ensures
        ({
            let step = writer.finished(bridge, output);
            let whole = structure.root_values == 1 && structure.lists.len() == 0
                && structure.atom is Idle && structure.skipped_lists == 0;
            let waits = output.extended("\n"@).flushed().blocked();
            &&& whole ==> step.text == "\n"@ && step.flush
            &&& whole && !waits ==> gone(step, WriteResult::Continue)
                && !step.bridge.port_active
            &&& whole && waits ==> step.answer is Blocked && step.writer.ending
                && step.writer.lease == writer.lease && step.bridge == bridge
            &&& !whole ==> gone(step, WriteResult::InvalidSequence) && step.text.len() == 0
                && step.bridge.failure == Some(ValueBridgeFailure::InvalidSequence)
        }),
{
}

/// What an answer means for the bridge: a reader that is gone and a stop are nobody's
/// failure, all else but success is.
pub proof fn law_answers_are_noted(answer: WriteResult)
    ensures
        answer is InvalidSequence <==> answer_failure(answer) == Some(
            ValueBridgeFailure::InvalidSequence,
        ),
        answer is LimitExceeded <==> answer_failure(answer) == Some(
            ValueBridgeFailure::LimitExceeded,
        ),
        answer is Finished <==> answer_failure(answer) == Some(ValueBridgeFailure::OutputFinished),
        answer is Cancelled <==> answer_failure(answer) == Some(
            ValueBridgeFailure::PostCommitCancelled,
        ),
        answer is Continue || answer is Inactive || answer is Disconnected || answer is Stopped
            || answer is Blocked <==> answer_failure(answer) is None,
{
}

/// Text that waits for room has no final answer yet; the writer is asked again until there
/// is one. Then a value that had not ended goes on, one that had gives the bridge back, and
/// anything but that output is wanted ends it.
pub proof fn law_waiting_text_is_asked_for_again(
    writer: WriterView,
    bridge: ValueBridgeState,
    answer: WriteResult,
)
    requires
        writer.result is Continue,
    ensures
        answer is Blocked ==> writer.resumed(bridge, answer).writer == writer && writer.resumed(
            bridge,
            answer,
        ).answer is Blocked,
        answer is Continue && !writer.ending ==> writer.resumed(bridge, answer).writer == writer
            && writer.resumed(bridge, answer).answer is Continue,
        answer is Continue && writer.ending ==> gone(writer.resumed(bridge, answer), answer),
        !(answer is Continue) && !(answer is Blocked) ==> gone(
            writer.resumed(bridge, answer),
            answer,
        ),
        writer.resumed(bridge, answer).text.len() == 0,
{
}

} // verus!
