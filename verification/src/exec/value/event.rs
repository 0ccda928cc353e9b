//! Output events as AutoLISP sends them: a number and a payload.
use vstd::prelude::*;

use super::number::RealText;
use crate::exec::protocol;
use crate::exec::protocol::OutputEventCode;

verus! {

/// One event of a value.
#[derive(Clone, Copy, Debug, PartialEq, Eq)]
pub enum ValueEvent<'a> {
    BeginList,
    EndList,
    Dot,
    Nil,
    True,
    Integer(i64),
    Real(RealText<'a>),
    BeginString,
    StringChunk(&'a str),
    EndString,
    BeginSymbol,
    SymbolChunk(&'a str),
    EndSymbol,
    Entity(Option<&'a str>),
    SelectionSet,
    VlaObject,
    File,
    Function,
    ErrorObject,
    Object(Option<&'a str>),
    Cycle,
    TooDeep,
}

/// One event of the output of an execution.
#[derive(Clone, Copy, Debug, PartialEq, Eq)]
pub enum OutputEvent<'a> {
    BeginValue,
    EndValue,
    Label(&'a str),
    InvalidLabel,
    Println(&'a str),
    InvalidPrintln,
    Value(ValueEvent<'a>),
}

/// What AutoLISP sent along with the number of an event.
#[derive(Clone, Copy, Debug, PartialEq, Eq)]
pub enum Payload<'a> {
    Nil,
    Integer(i64),
    Real(RealText<'a>),
    String(&'a str),
    Entity(Option<&'a str>),
}

/// AutoLISP sent what it should not have sent.
#[derive(Clone, Copy, Debug, PartialEq, Eq, Structural)]
pub struct ProtocolViolation;

/// The event that a code and its payload make up: each code takes one kind of
/// payload only.
pub open spec fn decoded<'a>(code: OutputEventCode, payload: Payload<'a>) -> Result<
    OutputEvent<'a>,
    ProtocolViolation,
> {
    match (code, payload) {
        (OutputEventCode::BeginList, Payload::Nil) => Ok(OutputEvent::Value(ValueEvent::BeginList)),
        (OutputEventCode::EndList, Payload::Nil) => Ok(OutputEvent::Value(ValueEvent::EndList)),
        (OutputEventCode::Dot, Payload::Nil) => Ok(OutputEvent::Value(ValueEvent::Dot)),
        (OutputEventCode::Nil, Payload::Nil) => Ok(OutputEvent::Value(ValueEvent::Nil)),
        (OutputEventCode::True, Payload::Nil) => Ok(OutputEvent::Value(ValueEvent::True)),
        (OutputEventCode::Integer, Payload::Integer(value)) => Ok(OutputEvent::Value(ValueEvent::Integer(value))),
        (OutputEventCode::Real, Payload::Real(value)) => Ok(OutputEvent::Value(ValueEvent::Real(value))),
        (OutputEventCode::BeginString, Payload::Nil) => Ok(OutputEvent::Value(ValueEvent::BeginString)),
        (OutputEventCode::StringChunk, Payload::String(text)) => Ok(OutputEvent::Value(ValueEvent::StringChunk(text))),
        (OutputEventCode::EndString, Payload::Nil) => Ok(OutputEvent::Value(ValueEvent::EndString)),
        (OutputEventCode::BeginSymbol, Payload::Nil) => Ok(OutputEvent::Value(ValueEvent::BeginSymbol)),
        (OutputEventCode::SymbolChunk, Payload::String(text)) => Ok(OutputEvent::Value(ValueEvent::SymbolChunk(text))),
        (OutputEventCode::EndSymbol, Payload::Nil) => Ok(OutputEvent::Value(ValueEvent::EndSymbol)),
        (OutputEventCode::Entity, Payload::Entity(handle)) => Ok(OutputEvent::Value(ValueEvent::Entity(handle))),
        (OutputEventCode::SelectionSet, Payload::Nil) => Ok(OutputEvent::Value(ValueEvent::SelectionSet)),
        (OutputEventCode::VlaObject, Payload::Nil) => Ok(OutputEvent::Value(ValueEvent::VlaObject)),
        (OutputEventCode::File, Payload::Nil) => Ok(OutputEvent::Value(ValueEvent::File)),
        (OutputEventCode::Function, Payload::Nil) => Ok(OutputEvent::Value(ValueEvent::Function)),
        (OutputEventCode::ErrorObject, Payload::Nil) => Ok(OutputEvent::Value(ValueEvent::ErrorObject)),
        (OutputEventCode::Object, Payload::String(label)) => Ok(OutputEvent::Value(ValueEvent::Object(Some(label)))),
        (OutputEventCode::Cycle, Payload::Nil) => Ok(OutputEvent::Value(ValueEvent::Cycle)),
        (OutputEventCode::TooDeep, Payload::Nil) => Ok(OutputEvent::Value(ValueEvent::TooDeep)),
        (OutputEventCode::BeginValue, Payload::Nil) => Ok(OutputEvent::BeginValue),
        (OutputEventCode::EndValue, Payload::Nil) => Ok(OutputEvent::EndValue),
        (OutputEventCode::Label, Payload::String(text)) => Ok(OutputEvent::Label(text)),
        (OutputEventCode::InvalidLabel, Payload::Nil) => Ok(OutputEvent::InvalidLabel),
        _ => Err(ProtocolViolation),
    }
}

impl OutputEventCode {
    /// The event that the code and a payload make up.
    pub fn decode<'a>(self, payload: Payload<'a>) -> (event: Result<
        OutputEvent<'a>,
        ProtocolViolation,
    >)
        ensures
            event == decoded(self, payload),
    {
        match (self, payload) {
            (OutputEventCode::BeginList, Payload::Nil) => Ok(OutputEvent::Value(ValueEvent::BeginList)),
            (OutputEventCode::EndList, Payload::Nil) => Ok(OutputEvent::Value(ValueEvent::EndList)),
            (OutputEventCode::Dot, Payload::Nil) => Ok(OutputEvent::Value(ValueEvent::Dot)),
            (OutputEventCode::Nil, Payload::Nil) => Ok(OutputEvent::Value(ValueEvent::Nil)),
            (OutputEventCode::True, Payload::Nil) => Ok(OutputEvent::Value(ValueEvent::True)),
            (OutputEventCode::Integer, Payload::Integer(value)) => Ok(OutputEvent::Value(ValueEvent::Integer(value))),
            (OutputEventCode::Real, Payload::Real(value)) => Ok(OutputEvent::Value(ValueEvent::Real(value))),
            (OutputEventCode::BeginString, Payload::Nil) => Ok(OutputEvent::Value(ValueEvent::BeginString)),
            (OutputEventCode::StringChunk, Payload::String(text)) => Ok(OutputEvent::Value(ValueEvent::StringChunk(text))),
            (OutputEventCode::EndString, Payload::Nil) => Ok(OutputEvent::Value(ValueEvent::EndString)),
            (OutputEventCode::BeginSymbol, Payload::Nil) => Ok(OutputEvent::Value(ValueEvent::BeginSymbol)),
            (OutputEventCode::SymbolChunk, Payload::String(text)) => Ok(OutputEvent::Value(ValueEvent::SymbolChunk(text))),
            (OutputEventCode::EndSymbol, Payload::Nil) => Ok(OutputEvent::Value(ValueEvent::EndSymbol)),
            (OutputEventCode::Entity, Payload::Entity(handle)) => Ok(OutputEvent::Value(ValueEvent::Entity(handle))),
            (OutputEventCode::SelectionSet, Payload::Nil) => Ok(OutputEvent::Value(ValueEvent::SelectionSet)),
            (OutputEventCode::VlaObject, Payload::Nil) => Ok(OutputEvent::Value(ValueEvent::VlaObject)),
            (OutputEventCode::File, Payload::Nil) => Ok(OutputEvent::Value(ValueEvent::File)),
            (OutputEventCode::Function, Payload::Nil) => Ok(OutputEvent::Value(ValueEvent::Function)),
            (OutputEventCode::ErrorObject, Payload::Nil) => Ok(OutputEvent::Value(ValueEvent::ErrorObject)),
            (OutputEventCode::Object, Payload::String(label)) => Ok(OutputEvent::Value(ValueEvent::Object(Some(label)))),
            (OutputEventCode::Cycle, Payload::Nil) => Ok(OutputEvent::Value(ValueEvent::Cycle)),
            (OutputEventCode::TooDeep, Payload::Nil) => Ok(OutputEvent::Value(ValueEvent::TooDeep)),
            (OutputEventCode::BeginValue, Payload::Nil) => Ok(OutputEvent::BeginValue),
            (OutputEventCode::EndValue, Payload::Nil) => Ok(OutputEvent::EndValue),
            (OutputEventCode::Label, Payload::String(text)) => Ok(OutputEvent::Label(text)),
            (OutputEventCode::InvalidLabel, Payload::Nil) => Ok(OutputEvent::InvalidLabel),
            _ => Err(ProtocolViolation),
        }
    }
}

/// The event that a number and a payload make up: a number that no code has makes none.
pub open spec fn numbered<'a>(code: i32, payload: Payload<'a>) -> Result<
    OutputEvent<'a>,
    ProtocolViolation,
> {
    if exists|known: OutputEventCode| #[trigger] known.number() == code {
        decoded(choose|known: OutputEventCode| #[trigger] known.number() == code, payload)
    } else {
        Err(ProtocolViolation)
    }
}

/// The event that a number and a payload make up.
pub fn output_event<'a>(code: i32, payload: Payload<'a>) -> (event: Result<
    OutputEvent<'a>,
    ProtocolViolation,
>)
    ensures
        event == numbered(code, payload),
        event is Ok ==> 1 <= code <= 26,
        forall|known: OutputEventCode| #[trigger]
            known.number() == code ==> event == decoded(known, payload),
{
    proof {
        assert forall|known: OutputEventCode| #[trigger] known.number() == code implies numbered(
            code,
            payload,
        ) == decoded(known, payload) by {
            let chosen = choose|known: OutputEventCode| #[trigger] known.number() == code;
            protocol::law_numbers_tell_events_apart(chosen, known);
        }
    }
    match OutputEventCode::from_code(code) {
        Some(known) => known.decode(payload),
        None => Err(ProtocolViolation),
    }
}

/// Two different codes never make up the same event with the same payload.
pub proof fn law_events_are_sent_unambiguously<'a>(
    left: OutputEventCode,
    right: OutputEventCode,
    payload: Payload<'a>,
)
    requires
        decoded(left, payload) is Ok,
        decoded(left, payload) == decoded(right, payload),
    ensures
        left == right,
{
}

} // verus!
