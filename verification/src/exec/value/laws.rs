//! What the events of an execution's output come to.
use vstd::prelude::*;

use super::event;
use super::event::{OutputEvent, Payload, ProtocolViolation, ValueEvent};
use super::number::RealText;
use super::port;
use super::port::{PortStep, PortView, WriteResult};
use super::printer;
use super::printer::OpaqueKind;
use crate::exec::io::{ValueBridgeFailure, ValueBridgeState};
use crate::exec::label;
use crate::exec::protocol;
use crate::exec::protocol::OutputEventCode;
use crate::execution::output::{EmitResult, OutputView};
use crate::printing;
use crate::printing::{PrintFault, StructureView};
use crate::readback;
use crate::reading;
use crate::text;

verus! {

/// A port that holds the bridge and has answered nothing but that output is wanted.
pub open spec fn in_order(port: PortView, bridge: ValueBridgeState) -> bool {
    &&& port.result is Continue
    &&& port.lease matches Some(lease) && {
        &&& bridge.open_kind == Some(lease.kind)
        &&& bridge.generation == lease.generation
        &&& bridge.port_active
        &&& bridge.failure is None
    }
}

/// What an event does while the channel takes text.
pub open spec fn done(port: PortView, bridge: ValueBridgeState, event: OutputEvent<'_>) -> PortStep {
    port.written(bridge, EmitResult::Written, WriteResult::Continue, Ok(event))
}

/// The text is written, and no more; the value goes on.
pub open spec fn writes(step: PortStep, shown: Seq<char>) -> bool {
    &&& step.text == shown
    &&& step.answer is Continue
    &&& step.port.result is Continue
    &&& step.port.printer is Some
    &&& !step.flush
}

/// The port is refused with an answer, writes nothing, and writes nothing any more.
pub open spec fn refuses(step: PortStep, answer: WriteResult) -> bool {
    &&& step.answer == answer
    &&& step.port.result == answer
    &&& step.text.len() == 0
    &&& !step.flush
}

/// A value outside of lists is printed as what it is: nil and true by their names, an
/// integer by a numeral that stands for it, a real by its printed form, and an entity so
/// that it can be found again.
pub proof fn law_atoms_are_printed(
    port: PortView,
    bridge: ValueBridgeState,
    structure: StructureView,
    integer: i64,
    number: RealText<'_>,
    handle: &str,
)
    requires
        in_order(port, bridge),
        port.printer == Some(structure),
        readback::ready(structure),
        structure.counts_roots,
        structure.lists.len() == 0,
    ensures
        writes(done(port, bridge, OutputEvent::Value(ValueEvent::Nil)), "nil"@),
        writes(done(port, bridge, OutputEvent::Value(ValueEvent::True)), "T"@),
        ({
            let step = done(port, bridge, OutputEvent::Value(ValueEvent::Integer(integer)));
            &&& writes(step, step.text)
            &&& reading::read(step.text).significand() == integer
            &&& reading::read(step.text).power() == 0
            &&& reading::digits_only(step.text) <==> integer >= 0
        }),
        writes(
            done(port, bridge, OutputEvent::Value(ValueEvent::Real(RealText::Zero))),
            "0.0"@,
        ),
        refuses(
            done(port, bridge, OutputEvent::Value(ValueEvent::Real(RealText::NotFinite))),
            WriteResult::InvalidSequence,
        ),
        number.printed() matches Some(shown) ==> writes(
            done(port, bridge, OutputEvent::Value(ValueEvent::Real(number))),
            shown,
        ),
        number.printed() is None ==> refuses(
            done(port, bridge, OutputEvent::Value(ValueEvent::Real(number))),
            WriteResult::InvalidSequence,
        ),
        printing::handle_text(handle@) ==> writes(
            done(port, bridge, OutputEvent::Value(ValueEvent::Entity(Some(handle)))),
            "(handent \""@ + text::ascii_upper_text(handle@) + "\")"@,
        ),
        !printing::handle_text(handle@) ==> writes(
            done(port, bridge, OutputEvent::Value(ValueEvent::Entity(Some(handle)))),
            "#<"@ + "Entity"@ + ">"@,
        ),
        writes(
            done(port, bridge, OutputEvent::Value(ValueEvent::Entity(None))),
            "#<"@ + "Entity"@ + ">"@,
        ),
{
    reading::law_signed_decimal_reads_back(integer as int);
    readback::law_values_are_separated(structure, "nil"@);
    readback::law_values_are_separated(structure, "T"@);
    readback::law_values_are_separated(structure, text::signed_decimal(integer as int));
    readback::law_values_are_separated(structure, "0.0"@);
    if let Some(shown) = number.printed() {
        readback::law_values_are_separated(structure, shown);
    }
    readback::law_values_are_separated(structure, printer::entity_text(Some(handle@)));
    readback::law_values_are_separated(structure, printer::entity_text(None));
}

/// A value that cannot be read back is shown by what it is, and an object by its label too,
/// where that can stand there.
pub proof fn law_opaque_values_are_named(
    port: PortView,
    bridge: ValueBridgeState,
    structure: StructureView,
    label: &str,
)
    requires
        in_order(port, bridge),
        port.printer == Some(structure),
        readback::ready(structure),
        structure.counts_roots,
        structure.lists.len() == 0,
    ensures
        writes(
            done(port, bridge, OutputEvent::Value(ValueEvent::SelectionSet)),
            "#<"@ + "SelectionSet"@ + ">"@,
        ),
        writes(
            done(port, bridge, OutputEvent::Value(ValueEvent::VlaObject)),
            "#<"@ + "VlaObject"@ + ">"@,
        ),
        writes(
            done(port, bridge, OutputEvent::Value(ValueEvent::File)),
            "#<"@ + "File"@ + ">"@,
        ),
        writes(
            done(port, bridge, OutputEvent::Value(ValueEvent::Function)),
            "#<"@ + "Function"@ + ">"@,
        ),
        writes(
            done(port, bridge, OutputEvent::Value(ValueEvent::ErrorObject)),
            "#<"@ + "Error"@ + ">"@,
        ),
        writes(
            done(port, bridge, OutputEvent::Value(ValueEvent::Cycle)),
            "#<"@ + "Cycle"@ + ">"@,
        ),
        writes(
            done(port, bridge, OutputEvent::Value(ValueEvent::TooDeep)),
            "#<"@ + "TooDeep"@ + ">"@,
        ),
        writes(
            done(port, bridge, OutputEvent::Value(ValueEvent::Object(None))),
            "#<"@ + "Object"@ + ">"@,
        ),
        printing::label_text(label@, 128) ==> writes(
            done(port, bridge, OutputEvent::Value(ValueEvent::Object(Some(label)))),
            "#<"@ + "Object"@ + " "@ + label@ + ">"@,
        ),
        !printing::label_text(label@, 128) ==> writes(
            done(port, bridge, OutputEvent::Value(ValueEvent::Object(Some(label)))),
            "#<"@ + "Object"@ + ">"@,
        ),
{
    readback::law_values_are_separated(structure, printer::kind_text(OpaqueKind::SelectionSet));
    readback::law_values_are_separated(structure, printer::kind_text(OpaqueKind::VlaObject));
    readback::law_values_are_separated(structure, printer::kind_text(OpaqueKind::File));
    readback::law_values_are_separated(structure, printer::kind_text(OpaqueKind::Function));
    readback::law_values_are_separated(structure, printer::kind_text(OpaqueKind::Error));
    readback::law_values_are_separated(structure, printer::kind_text(OpaqueKind::Cycle));
    readback::law_values_are_separated(structure, printer::kind_text(OpaqueKind::TooDeep));
    readback::law_values_are_separated(structure, printer::object_text(None));
    readback::law_values_are_separated(structure, printer::object_text(Some(label@)));
}

/// A line between the values of a form is written whole and made readable: a printed line
/// as it is, a label between dashes. A malformed one is refused, and so is any inside of a
/// value or of the output of an evaluation's value.
pub proof fn law_lines_are_written(port: PortView, bridge: ValueBridgeState, shown: &str)
    requires
        in_order(port, bridge),
    ensures
        ({
            let line = done(port, bridge, OutputEvent::Println(shown));
            let labelled = done(port, bridge, OutputEvent::Label(shown));
            let between = port.mode is Form && port.printer is None;
            &&& between && crate::exec::println::println_fault(shown@) is None ==> line.text == shown@ + "\n"@
                && line.flush && line.answer is Continue && line.port == port
            &&& between && label::label_fault(shown@) is None ==> labelled.text == "--- "@ + shown@
                + " ---\n"@ && labelled.flush && labelled.answer is Continue && labelled.port
                == port
            &&& between && crate::exec::println::println_fault(shown@) is Some ==> refuses(
                line,
                crate::exec::println::println_fault(shown@)->0,
            )
            &&& between && label::label_fault(shown@) is Some ==> refuses(
                labelled,
                label::label_fault(shown@)->0,
            )
            &&& !between ==> refuses(line, WriteResult::InvalidSequence) && refuses(
                labelled,
                WriteResult::InvalidSequence,
            )
            &&& refuses(
                done(port, bridge, OutputEvent::InvalidLabel),
                WriteResult::InvalidSequence,
            )
            &&& refuses(
                done(port, bridge, OutputEvent::InvalidPrintln),
                WriteResult::InvalidSequence,
            )
        }),
{
}

/// A value begins where none is open, and for the value of an evaluation only once. It ends
/// with a newline that makes it readable, and counts, where exactly one value was printed
/// and nothing is open.
pub proof fn law_values_begin_and_end(port: PortView, bridge: ValueBridgeState)
    requires
        in_order(port, bridge),
        port.completed_values < usize::MAX,
    ensures
        ({
            let begun = done(port, bridge, OutputEvent::BeginValue);
            let ended = done(port, bridge, OutputEvent::EndValue);
            let free = port.printer is None && (port.mode is Form || port.completed_values == 0);
            &&& free ==> begun.answer is Continue && begun.text.len() == 0 && (
            begun.port.printer matches Some(structure) && readback::ready(structure)
                && structure.lists.len() == 0 && structure.root_values == 0
                && structure.counts_roots)
            &&& !free ==> refuses(begun, WriteResult::InvalidSequence)
            &&& port.printer is None ==> refuses(ended, WriteResult::InvalidSequence)
            &&& port.printer matches Some(structure) ==> {
                let whole = structure.root_values == 1 && structure.lists.len() == 0
                    && structure.atom is Idle && structure.skipped_lists == 0;
                &&& whole ==> {
                    &&& ended.text == "\n"@
                    &&& ended.flush
                    &&& ended.answer is Continue
                    &&& ended.port.printer is None
                    &&& ended.port.completed_values == port.completed_values + 1
                    &&& ended.port.result is Continue
                }
                &&& !whole ==> ended.answer is InvalidSequence && ended.text.len() == 0
                    && ended.port.result is InvalidSequence
            }
        }),
{
}

/// A port that has lost its claim writes nothing and says that it is inactive; and what no
/// event stands for is refused.
pub proof fn law_unclaimed_port_writes_nothing(
    port: PortView,
    bridge: ValueBridgeState,
    status: EmitResult,
    write_status: WriteResult,
    event: OutputEvent<'_>,
)
    requires
        port.result is Continue,
    ensures
        !in_order(port, bridge) ==> refuses(
            port.written(bridge, status, write_status, Ok(event)),
            WriteResult::Inactive,
        ),
        refuses(
            port.written(
                bridge,
                status,
                write_status,
                Err::<OutputEvent<'_>, ProtocolViolation>(ProtocolViolation),
            ),
            WriteResult::InvalidSequence,
        ),
{
}

/// A port that is closed reports what went wrong with it: what it answered last, a value that
/// was left open, or that an evaluation printed no value or more than one. A reader that is
/// gone, a stop and, before the commit, a cancellation are nobody's failure.
pub proof fn law_closed_port_reports(port: PortView)
    ensures
        ({
            let (answer, failure) = port.completion();
            &&& !(port.result is Continue) ==> answer == port.result
            &&& port.result is Continue && port.printer is Some ==> answer is InvalidSequence
                && failure == Some(ValueBridgeFailure::Abandoned)
            &&& port.result is Continue && port.printer is None && port.mode is EvalValue
                && port.completed_values != 1 ==> answer is InvalidSequence && failure == Some(
                ValueBridgeFailure::MissingValue,
            )
            &&& port.result is Continue && port.printer is None && (port.mode is Form
                || port.completed_values == 1) ==> answer is Continue && failure is None
            &&& port.result is InvalidSequence ==> failure == Some(
                ValueBridgeFailure::InvalidSequence,
            )
            &&& port.result is LimitExceeded ==> failure == Some(ValueBridgeFailure::LimitExceeded)
            &&& port.result is Finished ==> failure == Some(ValueBridgeFailure::OutputFinished)
            &&& port.result is Cancelled && port.mode is EvalValue ==> failure == Some(
                ValueBridgeFailure::PostCommitCancelled,
            )
            &&& port.result is Cancelled && port.mode is Form ==> failure is None
            &&& port.result is Disconnected || port.result is Stopped || port.result is Inactive
                ==> failure is None
        }),
{
}

/// The answer to an event that was not printed is the reason for that.
pub proof fn law_refused_events_are_answered(fault: PrintFault)
    ensures
        ({
            let reported = printer::reported(Err::<(), PrintFault>(fault));
            &&& reported is Err
            &&& port::fault_answer(reported->Err_0) == match fault {
                PrintFault::InvalidSequence => WriteResult::InvalidSequence,
                PrintFault::LimitExceeded => WriteResult::LimitExceeded,
                PrintFault::Output(status) => crate::exec::output::shown(status),
            }
            &&& printer::reported(Ok::<(), PrintFault>(())) is Ok
        }),
{
}

/// The number of an event stands for that event, with what came along: texts, numbers and
/// handles are passed on as they are, and an event that takes none of them takes nothing.
pub proof fn law_sent_events_are_understood<'a>(
    integer: i64,
    number: RealText<'a>,
    string: &'a str,
    handle: Option<&'a str>,
)
    ensures
        event::numbered(6, Payload::Integer(integer)) == Ok::<OutputEvent<'a>, ProtocolViolation>(
            OutputEvent::Value(ValueEvent::Integer(integer)),
        ),
        event::numbered(7, Payload::Real(number)) == Ok::<OutputEvent<'a>, ProtocolViolation>(
            OutputEvent::Value(ValueEvent::Real(number)),
        ),
        event::numbered(9, Payload::String(string)) == Ok::<OutputEvent<'a>, ProtocolViolation>(
            OutputEvent::Value(ValueEvent::StringChunk(string)),
        ),
        event::numbered(12, Payload::String(string)) == Ok::<OutputEvent<'a>, ProtocolViolation>(
            OutputEvent::Value(ValueEvent::SymbolChunk(string)),
        ),
        event::numbered(14, Payload::Entity(handle)) == Ok::<OutputEvent<'a>, ProtocolViolation>(
            OutputEvent::Value(ValueEvent::Entity(handle)),
        ),
        event::numbered(20, Payload::String(string)) == Ok::<OutputEvent<'a>, ProtocolViolation>(
            OutputEvent::Value(ValueEvent::Object(Some(string))),
        ),
        event::numbered(25, Payload::String(string)) == Ok::<OutputEvent<'a>, ProtocolViolation>(
            OutputEvent::Label(string),
        ),
{
    lemma_numbered(OutputEventCode::Integer, Payload::Integer(integer));
    lemma_numbered(OutputEventCode::Real, Payload::Real(number));
    lemma_numbered(OutputEventCode::StringChunk, Payload::String(string));
    lemma_numbered(OutputEventCode::SymbolChunk, Payload::String(string));
    lemma_numbered(OutputEventCode::Entity, Payload::Entity(handle));
    lemma_numbered(OutputEventCode::Object, Payload::String(string));
    lemma_numbered(OutputEventCode::Label, Payload::String(string));
}

/// The numbers of the events that take nothing.
pub proof fn law_plain_events_are_understood<'a>()
    ensures
        ({
            let value = |sent: i32, expected: ValueEvent<'a>|
                event::numbered(sent, Payload::Nil) == Ok::<OutputEvent<'a>, ProtocolViolation>(
                    OutputEvent::Value(expected),
                );
            &&& value(1, ValueEvent::BeginList)
            &&& value(2, ValueEvent::EndList)
            &&& value(3, ValueEvent::Dot)
            &&& value(4, ValueEvent::Nil)
            &&& value(5, ValueEvent::True)
            &&& value(8, ValueEvent::BeginString)
            &&& value(10, ValueEvent::EndString)
            &&& value(11, ValueEvent::BeginSymbol)
            &&& value(13, ValueEvent::EndSymbol)
            &&& value(15, ValueEvent::SelectionSet)
            &&& value(16, ValueEvent::VlaObject)
            &&& value(17, ValueEvent::File)
            &&& value(18, ValueEvent::Function)
            &&& value(19, ValueEvent::ErrorObject)
            &&& value(21, ValueEvent::Cycle)
            &&& value(22, ValueEvent::TooDeep)
        }),
        event::numbered(23, Payload::Nil) == Ok::<OutputEvent<'a>, ProtocolViolation>(
            OutputEvent::BeginValue,
        ),
        event::numbered(24, Payload::Nil) == Ok::<OutputEvent<'a>, ProtocolViolation>(
            OutputEvent::EndValue,
        ),
        event::numbered(26, Payload::Nil) == Ok::<OutputEvent<'a>, ProtocolViolation>(
            OutputEvent::InvalidLabel,
        ),
{
    lemma_numbered(OutputEventCode::BeginList, Payload::Nil);
    lemma_numbered(OutputEventCode::EndList, Payload::Nil);
    lemma_numbered(OutputEventCode::Dot, Payload::Nil);
    lemma_numbered(OutputEventCode::Nil, Payload::Nil);
    lemma_numbered(OutputEventCode::True, Payload::Nil);
    lemma_numbered(OutputEventCode::BeginString, Payload::Nil);
    lemma_numbered(OutputEventCode::EndString, Payload::Nil);
    lemma_numbered(OutputEventCode::BeginSymbol, Payload::Nil);
    lemma_numbered(OutputEventCode::EndSymbol, Payload::Nil);
    lemma_numbered(OutputEventCode::SelectionSet, Payload::Nil);
    lemma_numbered(OutputEventCode::VlaObject, Payload::Nil);
    lemma_numbered(OutputEventCode::File, Payload::Nil);
    lemma_numbered(OutputEventCode::Function, Payload::Nil);
    lemma_numbered(OutputEventCode::ErrorObject, Payload::Nil);
    lemma_numbered(OutputEventCode::Cycle, Payload::Nil);
    lemma_numbered(OutputEventCode::TooDeep, Payload::Nil);
    lemma_numbered(OutputEventCode::BeginValue, Payload::Nil);
    lemma_numbered(OutputEventCode::EndValue, Payload::Nil);
    lemma_numbered(OutputEventCode::InvalidLabel, Payload::Nil);
}

proof fn lemma_numbered<'a>(code: OutputEventCode, payload: Payload<'a>)
    ensures
        event::numbered(code.number() as i32, payload) == event::decoded(code, payload),
{
    let number = code.number() as i32;
    assert(code.number() == number);
    let chosen = choose|known: OutputEventCode| #[trigger] known.number() == number;
    protocol::law_numbers_tell_events_apart(chosen, code);
}

/// The marker of an event in the program that emits values is replaced by the number that
/// the event is understood by.
pub proof fn law_emitter_sends_what_is_understood()
    ensures
        protocol::emitter_markers().contains(("BEGIN_LIST"@, text::decimal(1))),
        protocol::emitter_markers().contains(("END_LIST"@, text::decimal(2))),
        protocol::emitter_markers().contains(("DOT"@, text::decimal(3))),
        protocol::emitter_markers().contains(("NIL"@, text::decimal(4))),
        protocol::emitter_markers().contains(("TRUE"@, text::decimal(5))),
        protocol::emitter_markers().contains(("BEGIN_STRING"@, text::decimal(8))),
        protocol::emitter_markers().contains(("END_STRING"@, text::decimal(10))),
        protocol::emitter_markers().contains(("BEGIN_SYMBOL"@, text::decimal(11))),
        protocol::emitter_markers().contains(("END_SYMBOL"@, text::decimal(13))),
        protocol::emitter_markers().contains(("SELECTION_SET"@, text::decimal(15))),
        protocol::emitter_markers().contains(("VLA_OBJECT"@, text::decimal(16))),
        protocol::emitter_markers().contains(("FILE"@, text::decimal(17))),
        protocol::emitter_markers().contains(("FUNCTION"@, text::decimal(18))),
        protocol::emitter_markers().contains(("ERROR_OBJECT"@, text::decimal(19))),
        protocol::emitter_markers().contains(("CYCLE"@, text::decimal(21))),
        protocol::emitter_markers().contains(("TOO_DEEP"@, text::decimal(22))),
        protocol::emitter_markers().contains(("INTEGER"@, text::decimal(6))),
        protocol::emitter_markers().contains(("REAL"@, text::decimal(7))),
        protocol::emitter_markers().contains(("STRING_CHUNK"@, text::decimal(9))),
        protocol::emitter_markers().contains(("SYMBOL_CHUNK"@, text::decimal(12))),
        protocol::emitter_markers().contains(("ENTITY"@, text::decimal(14))),
        protocol::emitter_markers().contains(("OBJECT"@, text::decimal(20))),
        protocol::emitter_markers().contains(("BEGIN_VALUE"@, text::decimal(23))),
        protocol::emitter_markers().contains(("END_VALUE"@, text::decimal(24))),
{
    let markers = protocol::emitter_markers();
    assert(markers[0] == ("BEGIN_LIST"@, text::decimal(1)));
    assert(markers[1] == ("BEGIN_STRING"@, text::decimal(8)));
    assert(markers[2] == ("BEGIN_SYMBOL"@, text::decimal(11)));
    assert(markers[3] == ("BEGIN_VALUE"@, text::decimal(23)));
    assert(markers[6] == ("CYCLE"@, text::decimal(21)));
    assert(markers[7] == ("DOT"@, text::decimal(3)));
    assert(markers[9] == ("END_LIST"@, text::decimal(2)));
    assert(markers[10] == ("END_STRING"@, text::decimal(10)));
    assert(markers[11] == ("END_SYMBOL"@, text::decimal(13)));
    assert(markers[12] == ("END_VALUE"@, text::decimal(24)));
    assert(markers[13] == ("ENTITY"@, text::decimal(14)));
    assert(markers[14] == ("ERROR_OBJECT"@, text::decimal(19)));
    assert(markers[15] == ("FILE"@, text::decimal(17)));
    assert(markers[16] == ("FUNCTION"@, text::decimal(18)));
    assert(markers[17] == ("INTEGER"@, text::decimal(6)));
    assert(markers[19] == ("NIL"@, text::decimal(4)));
    assert(markers[20] == ("OBJECT"@, text::decimal(20)));
    assert(markers[21] == ("REAL"@, text::decimal(7)));
    assert(markers[22] == ("SELECTION_SET"@, text::decimal(15)));
    assert(markers[23] == ("STRING_CHUNK"@, text::decimal(9)));
    assert(markers[24] == ("SYMBOL_CHUNK"@, text::decimal(12)));
    assert(markers[25] == ("TOO_DEEP"@, text::decimal(22)));
    assert(markers[26] == ("TRUE"@, text::decimal(5)));
    assert(markers[27] == ("VLA_OBJECT"@, text::decimal(16)));
}

/// Text that waits for room has no final answer yet; the port is asked again until there is
/// one, and anything but that output is wanted ends it.
pub proof fn law_waiting_text_is_asked_for_again(
    step: PortStep,
    after: OutputView,
    port: PortView,
    answer: WriteResult,
)
    requires
        port.result is Continue,
    ensures
        step.answer is Continue && after.backlog.len() > 0 ==> step.answered(after) is Blocked,
        !(step.answer is Continue && after.backlog.len() > 0) ==> step.answered(after)
            == step.answer,
        answer is Continue || answer is Blocked ==> port.resumed(answer).port == port
            && port.resumed(answer).answer == answer,
        !(answer is Continue || answer is Blocked) ==> refuses(port.resumed(answer), answer),
{
}

} // verus!
