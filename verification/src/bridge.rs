//! What AutoLISP and the native side say, in the terms of the library.
use vstd::prelude::*;

use crate::exec::io::ExecIo;
use crate::exec::lisp::{interpret_lisp, LispObservation, LispStatus, NativeDiagnostic};
use crate::exec::value::event;
use crate::exec::value::event::{output_event, OutputEvent, Payload, ProtocolViolation};
use crate::exec::value::number::RealText;
use crate::exec::value::port::{NativeOutputPort, WriteResult};
use crate::limits::MAX_DIAGNOSTIC_BYTES;
use crate::native::NativeBridgeCleanupPlan;

verus! {

/// What kind of value AutoLISP returned as its status. `Unknown` holds any number that
/// stands for no kind.
#[derive(Clone, Copy, Debug, PartialEq, Eq, Structural)]
pub enum NativeLispStatusKind {
    Unavailable,
    Nil,
    True,
    Other,
    Unknown(u8),
}

/// What the native side saw of an AutoLISP call.
#[derive(Debug, PartialEq, Eq)]
pub struct NativeLispObservation {
    pub command_status: i32,
    pub status_kind: NativeLispStatusKind,
    pub status_read_status: i32,
    pub errno_available: bool,
    pub lisp_errno: i32,
    pub error_available: bool,
    pub error_text: String,
    pub error_text_truncated: bool,
    pub malformed_status: i32,
}

/// What kind of value came with an output event. `Unknown` holds any number that stands
/// for no kind.
#[derive(Clone, Copy, Debug, PartialEq, Eq, Structural)]
pub enum NativeLispPayloadKind {
    Invalid,
    Nil,
    Integer,
    Real,
    String,
    Entity,
    Unknown(u8),
}

/// An output event as the native side hands it over; texts and reals come beside it.
#[derive(Clone, Copy, Debug, PartialEq, Eq, Structural)]
pub struct NativeLispOutputEvent {
    pub code: i32,
    pub payload_kind: NativeLispPayloadKind,
    pub integer: i64,
    pub has_text: bool,
}

/// The status that AutoLISP returned; one that stands for nothing known counts as none.
pub open spec fn lisp_status(kind: NativeLispStatusKind) -> LispStatus {
    match kind {
        NativeLispStatusKind::Nil => LispStatus::Nil,
        NativeLispStatusKind::True => LispStatus::True,
        NativeLispStatusKind::Other => LispStatus::Other,
        _ => LispStatus::Unavailable,
    }
}

/// Whether an observation stands for what the native side saw.
pub open spec fn stands_for(seen: LispObservation, observation: NativeLispObservation) -> bool {
    &&& seen.command_status == observation.command_status
    &&& seen.status == lisp_status(observation.status_kind)
    &&& seen.status_read_status == observation.status_read_status
    &&& seen.errno == if observation.errno_available {
        Some(observation.lisp_errno)
    } else {
        None
    }
    &&& match seen.error {
        Some(error) => observation.error_available && error.text@ == observation.error_text@
            && error.truncated == observation.error_text_truncated,
        None => !observation.error_available,
    }
    &&& seen.malformed_status == observation.malformed_status
}

/// What the native side saw, without what was not available.
fn observed(observation: NativeLispObservation) -> (seen: LispObservation)
    ensures
        stands_for(seen, observation),
{
    let status = match observation.status_kind {
        NativeLispStatusKind::Nil => LispStatus::Nil,
        NativeLispStatusKind::True => LispStatus::True,
        NativeLispStatusKind::Other => LispStatus::Other,
        NativeLispStatusKind::Unavailable | NativeLispStatusKind::Unknown(_) => {
            LispStatus::Unavailable
        },
    };
    let error = if observation.error_available {
        Some(
            NativeDiagnostic {
                text: observation.error_text,
                truncated: observation.error_text_truncated,
            },
        )
    } else {
        None
    };
    let errno = if observation.errno_available {
        Some(observation.lisp_errno)
    } else {
        None
    };
    LispObservation {
        command_status: observation.command_status,
        status,
        status_read_status: observation.status_read_status,
        errno,
        error,
        malformed_status: observation.malformed_status,
    }
}

/// The step result of what the native side saw, and whether its value is to be kept.
pub fn interpret_lisp_observation(
    observation: NativeLispObservation,
    retain_value_on_success: bool,
) -> (plan: NativeBridgeCleanupPlan)
    ensures
        exists|seen: LispObservation| #[trigger]
            stands_for(seen, observation) && plan.result@ == seen.result(),
        plan.retain_value == (retain_value_on_success && observation.command_status == 0
            && observation.status_kind is True),
{
    let ghost given = observation;
    let seen = observed(observation);
    assert(stands_for(seen, given));
    interpret_lisp(seen, retain_value_on_success)
}

/// What came with an output event.
pub open spec fn lisp_payload<'a>(
    event: NativeLispOutputEvent,
    number: RealText<'a>,
    text: &'a str,
) -> Result<Payload<'a>, ProtocolViolation> {
    match event.payload_kind {
        NativeLispPayloadKind::Nil => Ok(Payload::Nil),
        NativeLispPayloadKind::Integer => Ok(Payload::Integer(event.integer)),
        NativeLispPayloadKind::Real => Ok(Payload::Real(number)),
        NativeLispPayloadKind::String => Ok(Payload::String(text)),
        NativeLispPayloadKind::Entity => Ok(
            Payload::Entity(
                if event.has_text {
                    Some(text)
                } else {
                    None
                },
            ),
        ),
        _ => Err(ProtocolViolation),
    }
}

/// The output event that AutoLISP sent.
pub open spec fn lisp_event<'a>(
    event: NativeLispOutputEvent,
    number: RealText<'a>,
    text: &'a str,
) -> Result<OutputEvent<'a>, ProtocolViolation> {
    match lisp_payload(event, number, text) {
        Ok(payload) => event::numbered(event.code, payload),
        Err(violation) => Err(violation),
    }
}

fn lisp_output_event<'a>(event: NativeLispOutputEvent, number: RealText<'a>, text: &'a str) -> (sent:
    Result<OutputEvent<'a>, ProtocolViolation>)
    ensures
        sent == lisp_event(event, number, text),
{
    let payload = match event.payload_kind {
        NativeLispPayloadKind::Nil => Payload::Nil,
        NativeLispPayloadKind::Integer => Payload::Integer(event.integer),
        NativeLispPayloadKind::Real => Payload::Real(number),
        NativeLispPayloadKind::String => Payload::String(text),
        NativeLispPayloadKind::Entity => Payload::Entity(
            if event.has_text {
                Some(text)
            } else {
                None
            },
        ),
        NativeLispPayloadKind::Invalid | NativeLispPayloadKind::Unknown(_) => {
            return Err(ProtocolViolation);
        },
    };
    output_event(event.code, payload)
}

/// Writes what AutoLISP sent through a port. Where that waits for room, the port is to be
/// asked again for the final answer.
pub fn write_lisp_output_event(
    port: &mut NativeOutputPort,
    io: &mut ExecIo,
    event: NativeLispOutputEvent,
    number: RealText<'_>,
    text: &str,
) -> (answer: WriteResult)
    requires
        old(port).well_formed(),
        old(io).output.well_formed(),
    ensures
        final(port).well_formed(),
        final(io).output.well_formed(),
        final(io).bridge == old(io).bridge,
        ({
            let step = old(port)@.written(
                old(io).bridge,
                old(io).output@.emit_result(),
                old(io).output@.write_status(),
                lisp_event(event, number, text),
            );
            &&& final(port)@ == step.port
            &&& final(io).output@ == step.output(old(io).output@)
            &&& answer == step.answered(final(io).output@)
        }),
{
    port.write(io, lisp_output_event(event, number, text))
}

/// How much of a diagnostic the native side has to hand over, so that one that is too
/// long can be told from one that is not.
pub fn native_diagnostic_capture_units() -> (units: usize)
    ensures
        units == MAX_DIAGNOSTIC_BYTES + 1,
{
    MAX_DIAGNOSTIC_BYTES + 1
}

/// What the native side saw is passed on as it is: a status of no known kind counts as
/// none, and a number or a text of an error counts only where it is said to be there.
pub proof fn law_observation_is_passed_on(
    seen: LispObservation,
    observation: NativeLispObservation,
)
    requires
        stands_for(seen, observation),
    ensures
        seen.command_status == observation.command_status,
        seen.status_read_status == observation.status_read_status,
        seen.malformed_status == observation.malformed_status,
        seen.status is Nil <==> observation.status_kind is Nil,
        seen.status is True <==> observation.status_kind is True,
        seen.status is Other <==> observation.status_kind is Other,
        seen.errno is Some <==> observation.errno_available,
        seen.errno is Some ==> seen.errno->0 == observation.lisp_errno,
        seen.error is Some <==> observation.error_available,
        seen.error is Some ==> seen.error->0.text@ == observation.error_text@,
        seen.error is Some ==> seen.error->0.truncated == observation.error_text_truncated,
{
}

/// What comes with an output event is what its kind says: nothing, the number, the real, the
/// text, or the name of an entity where there is one. Any other kind breaks the agreement.
pub proof fn law_payload_is_of_its_kind<'a>(
    event: NativeLispOutputEvent,
    number: RealText<'a>,
    text: &'a str,
)
    ensures
        ({
            let payload = lisp_payload(event, number, text);
            &&& payload == Ok::<Payload<'a>, ProtocolViolation>(Payload::Nil)
                <==> event.payload_kind is Nil
            &&& event.payload_kind is Integer ==> payload == Ok::<Payload<'a>, ProtocolViolation>(
                Payload::Integer(event.integer),
            )
            &&& event.payload_kind is Real ==> payload == Ok::<Payload<'a>, ProtocolViolation>(
                Payload::Real(number),
            )
            &&& event.payload_kind is String ==> payload == Ok::<Payload<'a>, ProtocolViolation>(
                Payload::String(text),
            )
            &&& event.payload_kind is Entity && event.has_text ==> payload == Ok::<
                Payload<'a>,
                ProtocolViolation,
            >(Payload::Entity(Some(text)))
            &&& event.payload_kind is Entity && !event.has_text ==> payload == Ok::<
                Payload<'a>,
                ProtocolViolation,
            >(Payload::Entity(None))
            &&& payload is Err <==> event.payload_kind is Invalid || event.payload_kind is Unknown
            &&& payload is Err ==> lisp_event(event, number, text) is Err
        }),
{
}

} // verus!
