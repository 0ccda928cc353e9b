//! The port through which AutoLISP writes output while it runs.
use vstd::prelude::*;

use super::event::{OutputEvent, ProtocolViolation};
pub use super::event::ValueEvent;
use super::printer;
use super::printer::{OpaqueKind, PrintError, ValuePrinter};
use crate::exec::io::{ExecIo, ValueBridgeFailure, ValueBridgeState, ValueOutputLease};
use crate::exec::label;
use crate::exec::output::{emit, resume};
pub use crate::exec::output::WriteResult;
use crate::execution::output;
use crate::execution::output::{EmitResult, OutputSink, OutputView};
use crate::printing;
use crate::printing::{Printed, StructureView};
use crate::text;

verus! {

#[derive(Clone, Copy, Debug, PartialEq, Eq, Structural)]
pub enum OutputPortMode {
    Form,
    EvalValue,
}

pub struct NativeOutputPort {
    lease: Option<ValueOutputLease>,
    printer: Option<ValuePrinter>,
    mode: OutputPortMode,
    completed_values: usize,
    result: WriteResult,
}

/// The state of a port.
#[verifier::ext_equal]
pub struct PortView {
    pub lease: Option<ValueOutputLease>,
    /// What is printed of the value that has begun and not ended.
    pub printer: Option<StructureView>,
    pub mode: OutputPortMode,
    pub completed_values: int,
    pub result: WriteResult,
}

/// What one event does to a port: the port after it, the text it writes, whether that is
/// made available to the reader at once, and the answer as long as there is room.
#[verifier::ext_equal]
pub struct PortStep {
    pub port: PortView,
    pub text: Seq<char>,
    pub flush: bool,
    pub answer: WriteResult,
}

impl PortStep {
    /// The channel after the event.
    pub open spec fn output(self, before: OutputView) -> OutputView {
        if self.flush {
            before.extended(self.text).flushed()
        } else {
            before.extended(self.text)
        }
    }

    /// The answer, where the event left the channel like this: text that waits for room
    /// has no final answer yet.
    pub open spec fn answered(self, after: OutputView) -> WriteResult {
        if self.answer is Continue && after.blocked() {
            WriteResult::Blocked
        } else {
            self.answer
        }
    }
}

impl View for NativeOutputPort {
    type V = PortView;

    closed spec fn view(&self) -> PortView {
        PortView {
            lease: self.lease,
            printer: match self.printer {
                Some(printer) => Some(printer@),
                None => None,
            },
            mode: self.mode,
            completed_values: self.completed_values as int,
            result: self.result,
        }
    }
}

/// What a value event prints.
pub open spec fn value_printed(
    structure: StructureView,
    status: EmitResult,
    event: ValueEvent<'_>,
) -> Printed {
    match event {
        ValueEvent::BeginList => structure.begin_list(
            status,
            printer::kind_text(OpaqueKind::TooDeep),
        ),
        ValueEvent::EndList => structure.end_list(status),
        ValueEvent::Dot => structure.dot(status),
        ValueEvent::Nil => structure.value(status, "nil"@),
        ValueEvent::True => structure.value(status, "T"@),
        ValueEvent::Integer(value) => structure.value(status, text::signed_decimal(value as int)),
        ValueEvent::Real(value) => structure.real_number(status, value),
        ValueEvent::BeginString => structure.begin_string(status, true),
        ValueEvent::StringChunk(chunk) => structure.string_chunk(status, chunk@, true),
        ValueEvent::EndString => structure.end_string(status, true),
        ValueEvent::BeginSymbol => structure.begin_symbol(status),
        ValueEvent::SymbolChunk(chunk) => structure.symbol_chunk(status, chunk@, true),
        ValueEvent::EndSymbol => structure.end_symbol(status),
        ValueEvent::Entity(handle) => structure.value(
            status,
            printer::entity_text(printing::optional_text(handle)),
        ),
        ValueEvent::SelectionSet => structure.value(
            status,
            printer::kind_text(OpaqueKind::SelectionSet),
        ),
        ValueEvent::VlaObject => structure.value(
            status,
            printer::kind_text(OpaqueKind::VlaObject),
        ),
        ValueEvent::File => structure.value(status, printer::kind_text(OpaqueKind::File)),
        ValueEvent::Function => structure.value(status, printer::kind_text(OpaqueKind::Function)),
        ValueEvent::ErrorObject => structure.value(status, printer::kind_text(OpaqueKind::Error)),
        ValueEvent::Object(label) => structure.value(
            status,
            printer::object_text(printing::optional_text(label)),
        ),
        ValueEvent::Cycle => structure.value(status, printer::kind_text(OpaqueKind::Cycle)),
        ValueEvent::TooDeep => structure.value(status, printer::kind_text(OpaqueKind::TooDeep)),
    }
}

/// The answer to an event that was not printed.
pub open spec fn fault_answer(error: PrintError) -> WriteResult {
    match error {
        PrintError::InvalidSequence => WriteResult::InvalidSequence,
        PrintError::LimitExceeded => WriteResult::LimitExceeded,
        PrintError::Output(result) => result,
    }
}

/// What an answer means for the bridge. Only after the commit does a cancelled
/// output count as a failure.
pub open spec fn answer_failure(mode: OutputPortMode, answer: WriteResult) -> Option<
    ValueBridgeFailure,
> {
    match answer {
        WriteResult::InvalidSequence => Some(ValueBridgeFailure::InvalidSequence),
        WriteResult::LimitExceeded => Some(ValueBridgeFailure::LimitExceeded),
        WriteResult::Finished => Some(ValueBridgeFailure::OutputFinished),
        WriteResult::Cancelled => if mode is EvalValue {
            Some(ValueBridgeFailure::PostCommitCancelled)
        } else {
            None
        },
        _ => None,
    }
}

impl PortView {
    /// The port writes nothing any more.
    pub open spec fn failed(self, answer: WriteResult) -> PortStep {
        PortStep {
            port: PortView { printer: None, result: answer, ..self },
            text: Seq::empty(),
            flush: false,
            answer,
        }
    }

    /// The port after the channel was asked again for text that waits, and answered so.
    pub open spec fn resumed(self, answer: WriteResult) -> PortStep {
        if !(self.result is Continue) {
            PortStep { port: self, text: Seq::empty(), flush: false, answer: self.result }
        } else if answer is Continue || answer is Blocked {
            PortStep { port: self, text: Seq::empty(), flush: false, answer }
        } else {
            self.failed(answer)
        }
    }

    pub open spec fn claimed(self, bridge: ValueBridgeState) -> bool {
        self.lease matches Some(lease) && bridge.grants(lease)
    }

    pub open spec fn begin_value(self) -> PortStep {
        if self.printer is Some || (self.mode is EvalValue && self.completed_values != 0) {
            self.failed(WriteResult::InvalidSequence)
        } else if self.lease is None {
            self.failed(WriteResult::Inactive)
        } else {
            PortStep {
                port: PortView { printer: Some(StructureView::empty(true)), ..self },
                text: Seq::empty(),
                flush: false,
                answer: WriteResult::Continue,
            }
        }
    }

    /// A value is complete when it has exactly one root and nothing is open.
    pub open spec fn end_value(self, status: EmitResult) -> PortStep {
        match self.printer {
            None => self.failed(WriteResult::InvalidSequence),
            Some(structure) => if structure.root_values != 1 {
                self.failed(WriteResult::InvalidSequence)
            } else if !structure.complete() {
                PortStep { flush: true, ..self.failed(WriteResult::InvalidSequence) }
            } else {
                match printer::reported(printing::answer(status)) {
                    Ok(_) => PortStep {
                        port: PortView {
                            printer: None,
                            completed_values: if self.completed_values < usize::MAX {
                                self.completed_values + 1
                            } else {
                                self.completed_values
                            },
                            ..self
                        },
                        text: "\n"@,
                        flush: true,
                        answer: WriteResult::Continue,
                    },
                    Err(error) => self.failed(fault_answer(error)),
                }
            },
        }
    }

    /// A line between the values of a form.
    pub open spec fn line(
        self,
        fault: Option<WriteResult>,
        status: WriteResult,
        text: Seq<char>,
    ) -> PortStep {
        if !(self.mode is Form) || self.printer is Some {
            self.failed(WriteResult::InvalidSequence)
        } else if self.lease is None {
            self.failed(WriteResult::Inactive)
        } else {
            match fault {
                Some(fault) => self.failed(fault),
                None => if status is Continue {
                    PortStep { port: self, text, flush: true, answer: status }
                } else {
                    self.failed(status)
                },
            }
        }
    }

    pub open spec fn value(self, status: EmitResult, event: ValueEvent<'_>) -> PortStep {
        match self.printer {
            None => self.failed(WriteResult::InvalidSequence),
            Some(structure) => {
                let printed = value_printed(structure, status, event);
                match printer::reported(printed.result) {
                    Ok(_) => PortStep {
                        port: PortView { printer: Some(printed.structure), ..self },
                        text: printed.text,
                        flush: false,
                        answer: WriteResult::Continue,
                    },
                    Err(error) => PortStep {
                        text: printed.text,
                        ..self.failed(fault_answer(error))
                    },
                }
            },
        }
    }

    /// What an event does, on a bridge and a channel in the given states.
    pub open spec fn written(
        self,
        bridge: ValueBridgeState,
        status: EmitResult,
        write_status: WriteResult,
        event: Result<OutputEvent<'_>, ProtocolViolation>,
    ) -> PortStep {
        match event {
            Err(_) => self.failed(WriteResult::InvalidSequence),
            Ok(event) => if !(self.result is Continue) {
                PortStep { port: self, text: Seq::empty(), flush: false, answer: self.result }
            } else if !self.claimed(bridge) {
                PortStep {
                    port: PortView { result: WriteResult::Inactive, ..self },
                    text: Seq::empty(),
                    flush: false,
                    answer: WriteResult::Inactive,
                }
            } else {
                match event {
                    OutputEvent::BeginValue => self.begin_value(),
                    OutputEvent::EndValue => self.end_value(status),
                    OutputEvent::Label(shown) => self.line(
                        label::label_fault(shown@),
                        write_status,
                        "--- "@ + shown@ + " ---\n"@,
                    ),
                    OutputEvent::Println(shown) => self.line(
                        crate::exec::println::println_fault(shown@),
                        write_status,
                        shown@ + "\n"@,
                    ),
                    OutputEvent::InvalidLabel => self.failed(WriteResult::InvalidSequence),
                    OutputEvent::InvalidPrintln => self.failed(WriteResult::InvalidSequence),
                    OutputEvent::Value(event) => self.value(status, event),
                }
            },
        }
    }

    /// What was missing when the port was closed.
    pub open spec fn completion(self) -> (WriteResult, Option<ValueBridgeFailure>) {
        if !(self.result is Continue) {
            (self.result, answer_failure(self.mode, self.result))
        } else if self.printer is Some {
            (WriteResult::InvalidSequence, Some(ValueBridgeFailure::Abandoned))
        } else if self.mode is EvalValue && self.completed_values != 1 {
            (WriteResult::InvalidSequence, Some(ValueBridgeFailure::MissingValue))
        } else {
            (WriteResult::Continue, None)
        }
    }
}

/// Once a port has answered anything but that output is wanted, every later event
/// gets an answer of that kind too, and nothing more is written.
pub proof fn law_failed_port_stays_failed(
    port: PortView,
    bridge: ValueBridgeState,
    status: EmitResult,
    write_status: WriteResult,
    event: Result<OutputEvent<'_>, ProtocolViolation>,
)
    requires
        !(port.result is Continue),
    ensures
        !(port.written(bridge, status, write_status, event).answer is Continue),
        !(port.written(bridge, status, write_status, event).port.result is Continue),
        port.written(bridge, status, write_status, event).text.len() == 0,
        !port.written(bridge, status, write_status, event).flush,
        forall|answer: WriteResult|
            !((#[trigger] port.resumed(answer)).answer is Continue) && port.resumed(answer).port
                == port,
{
}

/// A line and the end of a value are readable once they are answered that output is
/// wanted, at once or when the channel is asked again.
pub proof fn law_what_ends_is_readable(
    port: PortView,
    bridge: ValueBridgeState,
    event: OutputEvent<'_>,
    before: OutputView,
)
    requires
        port.result is Continue,
        before.bounded(),
        !before.blocked(),
        event is Println || event is Label || event is EndValue,
    ensures
        ({
            let step = port.written(
                bridge,
                before.emit_result(),
                before.write_status(),
                Ok(event),
            );
            let after = step.output(before);
            &&& step.answered(after) is Continue ==> after.pending.len() == 0
            &&& step.answered(after) is Blocked && after.resumed().write_answer() is Continue
                ==> after.resumed().pending.len() == 0
        }),
{
    let step = port.written(bridge, before.emit_result(), before.write_status(), Ok(event));
    if before.emit_result() is Written {
        output::law_text_passes_unchanged(before, step.text);
    }
    output::law_parts_join(before, step.text, Seq::empty());
    if step.answer is Continue {
        output::law_flush_is_carried_out(before.extended(step.text));
    }
}

/// A port for the value of an evaluation closes without a failure only if exactly
/// one value was completed through it.
pub proof fn law_eval_port_needs_one_value(port: PortView)
    requires
        port.mode is EvalValue,
    ensures
        port.completion().0 is Continue <==> port.result is Continue && port.printer is None
            && port.completed_values == 1,
{
}

impl NativeOutputPort {
    pub closed spec fn well_formed(&self) -> bool {
        self.printer matches Some(printer) ==> printer.well_formed()
    }

    /// A port that belongs to no execution.
    pub fn inactive() -> (port: NativeOutputPort)
        ensures
            port.well_formed(),
            port@ == (PortView {
                lease: None,
                printer: None,
                mode: OutputPortMode::Form,
                completed_values: 0,
                result: WriteResult::Inactive,
            }),
    {
        NativeOutputPort {
            lease: None,
            printer: None,
            mode: OutputPortMode::Form,
            completed_values: 0,
            result: WriteResult::Inactive,
        }
    }

    /// A port for the output of a form.
    pub fn form(lease: ValueOutputLease, io: &mut ExecIo) -> (port: NativeOutputPort)
        requires
            old(io).output.well_formed(),
        ensures
            port.well_formed(),
            final(io).output.well_formed(),
            final(io).bridge == old(io).bridge,
            final(io).output@ == old(io).output@,
            port@ == (PortView {
                lease: Some(lease),
                printer: None,
                mode: OutputPortMode::Form,
                completed_values: 0,
                result: old(io).output@.write_status(),
            }),
    {
        NativeOutputPort::new(lease, OutputPortMode::Form, io)
    }

    /// A port for the value of an evaluation.
    pub fn eval_value(lease: ValueOutputLease, io: &mut ExecIo) -> (port: NativeOutputPort)
        requires
            old(io).output.well_formed(),
        ensures
            port.well_formed(),
            final(io).output.well_formed(),
            final(io).bridge == old(io).bridge,
            final(io).output@ == old(io).output@,
            port@ == (PortView {
                lease: Some(lease),
                printer: None,
                mode: OutputPortMode::EvalValue,
                completed_values: 0,
                result: old(io).output@.write_status(),
            }),
    {
        NativeOutputPort::new(lease, OutputPortMode::EvalValue, io)
    }

    fn new(lease: ValueOutputLease, mode: OutputPortMode, io: &mut ExecIo) -> (port:
        NativeOutputPort)
        requires
            old(io).output.well_formed(),
        ensures
            port.well_formed(),
            final(io).output.well_formed(),
            final(io).bridge == old(io).bridge,
            final(io).output@ == old(io).output@,
            port@ == (PortView {
                lease: Some(lease),
                printer: None,
                mode,
                completed_values: 0,
                result: old(io).output@.write_status(),
            }),
    {
        proof {
            reveal_strlit("");
            assert(""@ =~= Seq::<char>::empty());
            output::law_nothing_is_added(io.output@);
        }
        let result = emit(&mut io.output, "");
        NativeOutputPort { lease: Some(lease), printer: None, mode, completed_values: 0, result }
    }

    /// Whether the port still holds its claim on the bridge.
    pub fn claimed(&self, io: &ExecIo) -> (result: bool)
        ensures
            result == self@.claimed(io.bridge),
    {
        match &self.lease {
            Some(lease) => lease.is_open(io),
            None => false,
        }
    }

    fn fail(&mut self, result: WriteResult) -> (answer: WriteResult)
        ensures
            final(self).well_formed(),
            answer == result,
            final(self)@ == old(self)@.failed(result).port,
    {
        self.printer = None;
        self.result = result;
        result
    }

    /// Takes an event.
    pub fn write(&mut self, io: &mut ExecIo, event: Result<OutputEvent<'_>, ProtocolViolation>) -> (
    answer: WriteResult)
        requires
            old(self).well_formed(),
            old(io).output.well_formed(),
        ensures
            final(self).well_formed(),
            final(io).output.well_formed(),
            final(io).bridge == old(io).bridge,
            ({
                let step = old(self)@.written(
                    old(io).bridge,
                    old(io).output@.emit_result(),
                    old(io).output@.write_status(),
                    event,
                );
                &&& final(self)@ == step.port
                &&& final(io).output@ == step.output(old(io).output@)
                &&& answer == step.answered(final(io).output@)
            }),
    {
        proof {
            output::law_nothing_is_added(io.output@);
        }
        let event = match event {
            Ok(event) => event,
            Err(_) => {
                return self.fail(WriteResult::InvalidSequence);
            },
        };
        if self.result != WriteResult::Continue {
            return self.result;
        }
        if !self.claimed(io) {
            self.result = WriteResult::Inactive;
            return self.result;
        }
        match event {
            OutputEvent::BeginValue => {
                let answer = self.begin_value();
                if answer == WriteResult::Continue && io.output.blocked() {
                    WriteResult::Blocked
                } else {
                    answer
                }
            },
            OutputEvent::EndValue => self.end_value(io),
            OutputEvent::Label(text) => self.line(io, text, true),
            OutputEvent::Println(text) => self.line(io, text, false),
            OutputEvent::InvalidLabel | OutputEvent::InvalidPrintln => {
                self.fail(WriteResult::InvalidSequence)
            },
            OutputEvent::Value(event) => self.value(io, event),
        }
    }

    /// Asks the channel again for what an event wrote that waits for room, and gives the
    /// final answer to that event, or says that it still waits.
    pub fn resume(&mut self, output: &mut OutputSink) -> (answer: WriteResult)
        requires
            old(self).well_formed(),
            old(output).well_formed(),
        ensures
            final(self).well_formed(),
            final(output).well_formed(),
            final(output)@ == old(output)@.resumed(),
            final(self)@ == old(self)@.resumed(final(output)@.write_answer()).port,
            answer == old(self)@.resumed(final(output)@.write_answer()).answer,
    {
        let result = resume(output);
        if self.result != WriteResult::Continue {
            return self.result;
        }
        match result {
            WriteResult::Continue | WriteResult::Blocked => result,
            _ => self.fail(result),
        }
    }

    /// The native side saw something that should not happen.
    pub fn invalidate(&mut self)
        ensures
            final(self).well_formed(),
            final(self)@ == old(self)@.failed(WriteResult::InvalidSequence).port,
    {
        let _ = self.fail(WriteResult::InvalidSequence);
    }

    /// Closes the port, and gives its claim back with what was missing.
    pub fn finish(self, io: &mut ExecIo) -> (answer: WriteResult)
        ensures
            answer == self@.completion().0,
            final(io).output == old(io).output,
            final(io).bridge == match self@.lease {
                Some(lease) => old(io).bridge.released(lease, self@.completion().1),
                None => old(io).bridge,
            },
    {
        let (answer, failure) = self.completion_failure();
        if let Some(lease) = self.lease {
            lease.release(io, failure);
        }
        answer
    }

    /// Drops the port without closing it.
    pub fn abandon(self, io: &mut ExecIo)
        ensures
            final(io).output == old(io).output,
            final(io).bridge == match self@.lease {
                Some(lease) => old(io).bridge.released(lease, Some(ValueBridgeFailure::Abandoned)),
                None => old(io).bridge,
            },
    {
        if let Some(lease) = self.lease {
            lease.release(io, Some(ValueBridgeFailure::Abandoned));
        }
    }

    fn completion_failure(&self) -> (completion: (WriteResult, Option<ValueBridgeFailure>))
        ensures
            completion == self@.completion(),
    {
        if self.result != WriteResult::Continue {
            return (self.result, bridge_failure(self.mode, self.result));
        }
        if self.printer.is_some() {
            return (WriteResult::InvalidSequence, Some(ValueBridgeFailure::Abandoned));
        }
        if self.mode == OutputPortMode::EvalValue && self.completed_values != 1 {
            return (WriteResult::InvalidSequence, Some(ValueBridgeFailure::MissingValue));
        }
        (WriteResult::Continue, None)
    }

    fn begin_value(&mut self) -> (answer: WriteResult)
        requires
            old(self).well_formed(),
        ensures
            final(self).well_formed(),
            final(self)@ == old(self)@.begin_value().port,
            answer == old(self)@.begin_value().answer,
    {
        if self.printer.is_some() || (self.mode == OutputPortMode::EvalValue
            && self.completed_values != 0) {
            return self.fail(WriteResult::InvalidSequence);
        }
        if self.lease.is_none() {
            return self.fail(WriteResult::Inactive);
        }
        self.printer = Some(ValuePrinter::new());
        WriteResult::Continue
    }

    fn end_value(&mut self, io: &mut ExecIo) -> (answer: WriteResult)
        requires
            old(self).well_formed(),
            old(io).output.well_formed(),
        ensures
            final(self).well_formed(),
            final(io).output.well_formed(),
            final(io).bridge == old(io).bridge,
            ({
                let step = old(self)@.end_value(old(io).output@.emit_result());
                &&& final(self)@ == step.port
                &&& final(io).output@ == step.output(old(io).output@)
                &&& answer == step.answered(final(io).output@)
            }),
    {
        proof {
            output::law_nothing_is_added(io.output@);
        }
        let printer = match self.printer.take() {
            Some(printer) => printer,
            None => {
                return self.fail(WriteResult::InvalidSequence);
            },
        };
        if printer.root_values() != 1 {
            return self.fail(WriteResult::InvalidSequence);
        }
        match printer.finish(&mut io.output) {
            Ok(_) => {
                self.count_value();
                WriteResult::Continue
            },
            Err(PrintError::Output(WriteResult::Blocked)) => {
                self.count_value();
                WriteResult::Blocked
            },
            Err(error) => self.print_error(error),
        }
    }

    fn count_value(&mut self)
        requires
            old(self)@.printer is None,
        ensures
            final(self).well_formed(),
            final(self)@ == (PortView {
                completed_values: if old(self)@.completed_values < usize::MAX {
                    old(self)@.completed_values + 1
                } else {
                    old(self)@.completed_values
                },
                ..old(self)@
            }),
    {
        if self.completed_values < usize::MAX {
            self.completed_values = self.completed_values + 1;
        }
    }

    fn line(&mut self, io: &mut ExecIo, text: &str, labelled: bool) -> (answer: WriteResult)
        requires
            old(self).well_formed(),
            old(io).output.well_formed(),
        ensures
            final(self).well_formed(),
            final(io).output.well_formed(),
            final(io).bridge == old(io).bridge,
            ({
                let step = if labelled {
                    old(self)@.line(
                        label::label_fault(text@),
                        old(io).output@.write_status(),
                        "--- "@ + text@ + " ---\n"@,
                    )
                } else {
                    old(self)@.line(
                        crate::exec::println::println_fault(text@),
                        old(io).output@.write_status(),
                        text@ + "\n"@,
                    )
                };
                &&& final(self)@ == step.port
                &&& final(io).output@ == step.output(old(io).output@)
                &&& answer == step.answered(final(io).output@)
            }),
    {
        proof {
            output::law_nothing_is_added(io.output@);
        }
        if self.mode != OutputPortMode::Form || self.printer.is_some() {
            return self.fail(WriteResult::InvalidSequence);
        }
        if self.lease.is_none() {
            return self.fail(WriteResult::Inactive);
        }
        let result = if labelled {
            label::write(&mut io.output, text)
        } else {
            crate::exec::println::write(&mut io.output, text)
        };
        match result {
            WriteResult::Continue | WriteResult::Blocked => result,
            _ => self.fail(result),
        }
    }

    fn value(&mut self, io: &mut ExecIo, event: ValueEvent<'_>) -> (answer: WriteResult)
        requires
            old(self).well_formed(),
            old(io).output.well_formed(),
        ensures
            final(self).well_formed(),
            final(io).output.well_formed(),
            final(io).bridge == old(io).bridge,
            ({
                let step = old(self)@.value(old(io).output@.emit_result(), event);
                &&& final(self)@ == step.port
                &&& final(io).output@ == step.output(old(io).output@)
                &&& answer == step.answered(final(io).output@)
            }),
    {
        proof {
            output::law_nothing_is_added(io.output@);
        }
        let mut printer = match self.printer.take() {
            Some(printer) => printer,
            None => {
                return self.fail(WriteResult::InvalidSequence);
            },
        };
        let result = print_event(&mut printer, io, event);
        match result {
            Ok(_) => {
                self.printer = Some(printer);
                WriteResult::Continue
            },
            Err(PrintError::Output(WriteResult::Blocked)) => {
                self.printer = Some(printer);
                WriteResult::Blocked
            },
            Err(error) => self.print_error(error),
        }
    }

    fn print_error(&mut self, error: PrintError) -> (answer: WriteResult)
        ensures
            final(self).well_formed(),
            answer == fault_answer(error),
            final(self)@ == old(self)@.failed(fault_answer(error)).port,
    {
        match error {
            PrintError::InvalidSequence => self.fail(WriteResult::InvalidSequence),
            PrintError::LimitExceeded => self.fail(WriteResult::LimitExceeded),
            PrintError::Output(result) => self.fail(result),
        }
    }
}

/// Prints one event of a value.
pub(crate) fn print_event(printer: &mut ValuePrinter, io: &mut ExecIo, event: ValueEvent<'_>) -> (
result: Result<(), PrintError>)
    requires
        old(printer).well_formed(),
        old(io).output.well_formed(),
    ensures
        final(printer).well_formed(),
        final(io).output.well_formed(),
        final(io).bridge == old(io).bridge,
        printer::performed(
            value_printed(old(printer)@, old(io).output@.emit_result(), event),
            final(printer)@,
            old(io).output@,
            final(io).output@,
            result,
        ),
{
    match event {
        ValueEvent::BeginList => printer.begin_list(&mut io.output),
        ValueEvent::EndList => printer.end_list(&mut io.output),
        ValueEvent::Dot => printer.dot(&mut io.output),
        ValueEvent::Nil => printer.nil(&mut io.output),
        ValueEvent::True => printer.true_value(&mut io.output),
        ValueEvent::Integer(value) => printer.integer(&mut io.output, value),
        ValueEvent::Real(value) => printer.real_number(&mut io.output, value),
        ValueEvent::BeginString => printer.begin_string(&mut io.output),
        ValueEvent::StringChunk(text) => printer.string_chunk(&mut io.output, text),
        ValueEvent::EndString => printer.end_string(&mut io.output),
        ValueEvent::BeginSymbol => printer.begin_symbol(&mut io.output),
        ValueEvent::SymbolChunk(text) => printer.symbol_chunk(&mut io.output, text),
        ValueEvent::EndSymbol => printer.end_symbol(&mut io.output),
        ValueEvent::Entity(handle) => printer.entity(&mut io.output, handle),
        ValueEvent::SelectionSet => printer.selection_set(&mut io.output),
        ValueEvent::VlaObject => printer.vla_object(&mut io.output),
        ValueEvent::File => printer.file(&mut io.output),
        ValueEvent::Function => printer.function(&mut io.output),
        ValueEvent::ErrorObject => printer.error_object(&mut io.output),
        ValueEvent::Object(label) => printer.object(&mut io.output, label),
        ValueEvent::Cycle => printer.cycle(&mut io.output),
        ValueEvent::TooDeep => printer.too_deep(&mut io.output),
    }
}

fn bridge_failure(mode: OutputPortMode, result: WriteResult) -> (failure: Option<
    ValueBridgeFailure,
>)
    ensures
        failure == answer_failure(mode, result),
{
    match result {
        WriteResult::InvalidSequence => Some(ValueBridgeFailure::InvalidSequence),
        WriteResult::LimitExceeded => Some(ValueBridgeFailure::LimitExceeded),
        WriteResult::Finished => Some(ValueBridgeFailure::OutputFinished),
        WriteResult::Cancelled => if mode == OutputPortMode::EvalValue {
            Some(ValueBridgeFailure::PostCommitCancelled)
        } else {
            None
        },
        WriteResult::Continue
        | WriteResult::Inactive
        | WriteResult::Disconnected
        | WriteResult::Stopped
        | WriteResult::Blocked => None,
    }
}

} // verus!
