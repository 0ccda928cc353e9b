//! The program that visits a value and reports it event by event.
use vstd::prelude::*;
use vstd::string::*;

use super::value_bridge::ValueEvent;
use crate::bridge_protocol;
use crate::bridge_protocol::{
    ERRNO_SYMBOL, ERROR_SYMBOL, STATUS_SYMBOL, VALUE_CHUNK_CHARACTERS, VALUE_EVENT_FUNCTION,
    VALUE_MAX_DEPTH, VALUE_SYMBOL,
};
use crate::exec::value::number::RealText;
use crate::template;
use crate::template::find_from;
use crate::text;
use crate::text::{chars_of, push_chars, push_decimal};

verus! {

/// The events of a value.
#[derive(Clone, Copy, Debug, PartialEq, Eq, Structural)]
pub enum EventCode {
    BeginList,
    EndList,
    Dot,
    Nil,
    True,
    Integer,
    Real,
    BeginString,
    StringChunk,
    EndString,
    BeginSymbol,
    SymbolChunk,
    EndSymbol,
    Entity,
    SelectionSet,
    VlaObject,
    File,
    Function,
    ErrorObject,
    Object,
    Cycle,
    TooDeep,
}

impl EventCode {
    /// The number that stands for the event.
    pub open spec fn number(self) -> int {
        match self {
            EventCode::BeginList => 1,
            EventCode::EndList => 2,
            EventCode::Dot => 3,
            EventCode::Nil => 4,
            EventCode::True => 5,
            EventCode::Integer => 6,
            EventCode::Real => 7,
            EventCode::BeginString => 8,
            EventCode::StringChunk => 9,
            EventCode::EndString => 10,
            EventCode::BeginSymbol => 11,
            EventCode::SymbolChunk => 12,
            EventCode::EndSymbol => 13,
            EventCode::Entity => 14,
            EventCode::SelectionSet => 15,
            EventCode::VlaObject => 16,
            EventCode::File => 17,
            EventCode::Function => 18,
            EventCode::ErrorObject => 19,
            EventCode::Object => 20,
            EventCode::Cycle => 21,
            EventCode::TooDeep => 22,
        }
    }

    pub fn code(self) -> (code: i32)
        ensures
            code == self.number(),
    {
        match self {
            EventCode::BeginList => 1,
            EventCode::EndList => 2,
            EventCode::Dot => 3,
            EventCode::Nil => 4,
            EventCode::True => 5,
            EventCode::Integer => 6,
            EventCode::Real => 7,
            EventCode::BeginString => 8,
            EventCode::StringChunk => 9,
            EventCode::EndString => 10,
            EventCode::BeginSymbol => 11,
            EventCode::SymbolChunk => 12,
            EventCode::EndSymbol => 13,
            EventCode::Entity => 14,
            EventCode::SelectionSet => 15,
            EventCode::VlaObject => 16,
            EventCode::File => 17,
            EventCode::Function => 18,
            EventCode::ErrorObject => 19,
            EventCode::Object => 20,
            EventCode::Cycle => 21,
            EventCode::TooDeep => 22,
        }
    }

    /// The event that a number stands for.
    pub fn from_raw(code: i32) -> (event: Option<EventCode>)
        ensures
            event is Some <==> 1 <= code <= 22,
            event matches Some(event) ==> event.number() == code,
    {
        match code {
            1 => Some(EventCode::BeginList),
            2 => Some(EventCode::EndList),
            3 => Some(EventCode::Dot),
            4 => Some(EventCode::Nil),
            5 => Some(EventCode::True),
            6 => Some(EventCode::Integer),
            7 => Some(EventCode::Real),
            8 => Some(EventCode::BeginString),
            9 => Some(EventCode::StringChunk),
            10 => Some(EventCode::EndString),
            11 => Some(EventCode::BeginSymbol),
            12 => Some(EventCode::SymbolChunk),
            13 => Some(EventCode::EndSymbol),
            14 => Some(EventCode::Entity),
            15 => Some(EventCode::SelectionSet),
            16 => Some(EventCode::VlaObject),
            17 => Some(EventCode::File),
            18 => Some(EventCode::Function),
            19 => Some(EventCode::ErrorObject),
            20 => Some(EventCode::Object),
            21 => Some(EventCode::Cycle),
            22 => Some(EventCode::TooDeep),
            _ => None,
        }
    }
}

/// No two events have the same number.
pub proof fn law_numbers_tell_events_apart(left: EventCode, right: EventCode)
    requires
        left.number() == right.number(),
    ensures
        left == right,
{
}

/// What AutoLISP sent along with the number of an event.
#[derive(Clone, Copy, Debug, PartialEq, Eq)]
pub enum Payload<'a> {
    Invalid,
    Nil,
    Integer(i64),
    Real(RealText<'a>),
    String(&'a str),
    Entity(Option<&'a str>),
}

/// The event that a code and its payload make up: each code takes one kind of
/// payload only.
pub open spec fn decoded<'a>(code: EventCode, payload: Payload<'a>) -> ValueEvent<'a> {
    match (code, payload) {
        (EventCode::BeginList, Payload::Nil) => ValueEvent::BeginList,
        (EventCode::EndList, Payload::Nil) => ValueEvent::EndList,
        (EventCode::Dot, Payload::Nil) => ValueEvent::Dot,
        (EventCode::Nil, Payload::Nil) => ValueEvent::Nil,
        (EventCode::True, Payload::Nil) => ValueEvent::True,
        (EventCode::Integer, Payload::Integer(value)) => ValueEvent::Integer(value),
        (EventCode::Real, Payload::Real(value)) => ValueEvent::Real(value),
        (EventCode::BeginString, Payload::Nil) => ValueEvent::BeginString,
        (EventCode::StringChunk, Payload::String(text)) => ValueEvent::StringChunk(text),
        (EventCode::EndString, Payload::Nil) => ValueEvent::EndString,
        (EventCode::BeginSymbol, Payload::Nil) => ValueEvent::BeginSymbol,
        (EventCode::SymbolChunk, Payload::String(text)) => ValueEvent::SymbolChunk(text),
        (EventCode::EndSymbol, Payload::Nil) => ValueEvent::EndSymbol,
        (EventCode::Entity, Payload::Entity(handle)) => ValueEvent::Entity(handle),
        (EventCode::SelectionSet, Payload::Nil) => ValueEvent::SelectionSet,
        (EventCode::VlaObject, Payload::Nil) => ValueEvent::VlaObject,
        (EventCode::File, Payload::Nil) => ValueEvent::File,
        (EventCode::Function, Payload::Nil) => ValueEvent::Function,
        (EventCode::ErrorObject, Payload::Nil) => ValueEvent::ErrorObject,
        (EventCode::Object, Payload::String(label)) => ValueEvent::Object(Some(label)),
        (EventCode::Cycle, Payload::Nil) => ValueEvent::Cycle,
        (EventCode::TooDeep, Payload::Nil) => ValueEvent::TooDeep,
        _ => ValueEvent::Invalid,
    }
}

/// The event that a number and a payload make up.
pub fn value_event<'a>(code: i32, payload: Payload<'a>) -> (event: ValueEvent<'a>)
    ensures
        !(1 <= code <= 22) ==> event is Invalid,
        forall|known: EventCode| #[trigger]
            known.number() == code ==> event == decoded(known, payload),
{
    let known = match EventCode::from_raw(code) {
        Some(known) => known,
        None => {
            return ValueEvent::Invalid;
        },
    };
    match (known, payload) {
        (EventCode::BeginList, Payload::Nil) => ValueEvent::BeginList,
        (EventCode::EndList, Payload::Nil) => ValueEvent::EndList,
        (EventCode::Dot, Payload::Nil) => ValueEvent::Dot,
        (EventCode::Nil, Payload::Nil) => ValueEvent::Nil,
        (EventCode::True, Payload::Nil) => ValueEvent::True,
        (EventCode::Integer, Payload::Integer(value)) => ValueEvent::Integer(value),
        (EventCode::Real, Payload::Real(value)) => ValueEvent::Real(value),
        (EventCode::BeginString, Payload::Nil) => ValueEvent::BeginString,
        (EventCode::StringChunk, Payload::String(text)) => ValueEvent::StringChunk(text),
        (EventCode::EndString, Payload::Nil) => ValueEvent::EndString,
        (EventCode::BeginSymbol, Payload::Nil) => ValueEvent::BeginSymbol,
        (EventCode::SymbolChunk, Payload::String(text)) => ValueEvent::SymbolChunk(text),
        (EventCode::EndSymbol, Payload::Nil) => ValueEvent::EndSymbol,
        (EventCode::Entity, Payload::Entity(handle)) => ValueEvent::Entity(handle),
        (EventCode::SelectionSet, Payload::Nil) => ValueEvent::SelectionSet,
        (EventCode::VlaObject, Payload::Nil) => ValueEvent::VlaObject,
        (EventCode::File, Payload::Nil) => ValueEvent::File,
        (EventCode::Function, Payload::Nil) => ValueEvent::Function,
        (EventCode::ErrorObject, Payload::Nil) => ValueEvent::ErrorObject,
        (EventCode::Object, Payload::String(label)) => ValueEvent::Object(Some(label)),
        (EventCode::Cycle, Payload::Nil) => ValueEvent::Cycle,
        (EventCode::TooDeep, Payload::Nil) => ValueEvent::TooDeep,
        _ => ValueEvent::Invalid,
    }
}

/// Why the program cannot be rendered.
#[derive(Clone, Copy, Debug, PartialEq, Eq, Structural)]
pub enum VisitorError {
    OpenMarker,
    UnknownMarker,
}

pub open spec fn event_text(event: EventCode) -> Seq<char> {
    text::decimal(event.number() as nat)
}

/// What a marker stands for.
pub open spec fn marker_text(marker: Seq<char>) -> Option<Seq<char>> {
    if marker == "CALLBACK"@ {
        Some(bridge_protocol::VALUE_EVENT_FUNCTION@)
    } else if marker == "VALUE_SYMBOL"@ {
        Some(bridge_protocol::VALUE_SYMBOL@)
    } else if marker == "STATUS_SYMBOL"@ {
        Some(bridge_protocol::STATUS_SYMBOL@)
    } else if marker == "ERROR_SYMBOL"@ {
        Some(bridge_protocol::ERROR_SYMBOL@)
    } else if marker == "ERRNO_SYMBOL"@ {
        Some(bridge_protocol::ERRNO_SYMBOL@)
    } else if marker == "MAX_DEPTH"@ {
        Some(text::decimal(bridge_protocol::VALUE_MAX_DEPTH as nat))
    } else if marker == "CHUNK_CHARS"@ {
        Some(text::decimal(bridge_protocol::VALUE_CHUNK_CHARACTERS as nat))
    } else if marker == "BEGIN_LIST"@ {
        Some(event_text(EventCode::BeginList))
    } else if marker == "END_LIST"@ {
        Some(event_text(EventCode::EndList))
    } else if marker == "DOT"@ {
        Some(event_text(EventCode::Dot))
    } else if marker == "NIL"@ {
        Some(event_text(EventCode::Nil))
    } else if marker == "TRUE"@ {
        Some(event_text(EventCode::True))
    } else if marker == "INTEGER"@ {
        Some(event_text(EventCode::Integer))
    } else if marker == "REAL"@ {
        Some(event_text(EventCode::Real))
    } else if marker == "BEGIN_STRING"@ {
        Some(event_text(EventCode::BeginString))
    } else if marker == "STRING_CHUNK"@ {
        Some(event_text(EventCode::StringChunk))
    } else if marker == "END_STRING"@ {
        Some(event_text(EventCode::EndString))
    } else if marker == "BEGIN_SYMBOL"@ {
        Some(event_text(EventCode::BeginSymbol))
    } else if marker == "SYMBOL_CHUNK"@ {
        Some(event_text(EventCode::SymbolChunk))
    } else if marker == "END_SYMBOL"@ {
        Some(event_text(EventCode::EndSymbol))
    } else if marker == "ENTITY"@ {
        Some(event_text(EventCode::Entity))
    } else if marker == "SELECTION_SET"@ {
        Some(event_text(EventCode::SelectionSet))
    } else if marker == "VLA_OBJECT"@ {
        Some(event_text(EventCode::VlaObject))
    } else if marker == "FILE"@ {
        Some(event_text(EventCode::File))
    } else if marker == "FUNCTION"@ {
        Some(event_text(EventCode::Function))
    } else if marker == "ERROR_OBJECT"@ {
        Some(event_text(EventCode::ErrorObject))
    } else if marker == "OBJECT"@ {
        Some(event_text(EventCode::Object))
    } else if marker == "CYCLE"@ {
        Some(event_text(EventCode::Cycle))
    } else if marker == "TOO_DEEP"@ {
        Some(event_text(EventCode::TooDeep))
    } else {
        None
    }
}

/// The first position at or behind `start` where the pattern stands, or the end.
pub open spec fn first_at(source: Seq<char>, pattern: Seq<char>, start: int) -> int
    decreases source.len() - start,
{
    if start >= source.len() || template::occurs_at(source, pattern, start) {
        start
    } else {
        first_at(source, pattern, start + 1)
    }
}

/// The program from `start` on, with each marker replaced.
pub open spec fn rendered_from(source: Seq<char>, start: int) -> Result<Seq<char>, VisitorError>
    decreases source.len() - start,
{
    let open = first_at(source, "{{"@, start);
    if start < 0 || open < start || open >= source.len() {
        Ok(source.skip(start))
    } else {
        let close = first_at(source, "}}"@, open + 2);
        if close < open + 2 || close + 2 > source.len() {
            Err(VisitorError::OpenMarker)
        } else {
            match marker_text(source.subrange(open + 2, close)) {
                None => Err(VisitorError::UnknownMarker),
                Some(value) => match rendered_from(source, close + 2) {
                    Ok(rest) => Ok(source.subrange(start, open) + value + rest),
                    Err(error) => Err(error),
                },
            }
        }
    }
}

proof fn lemma_first_at(source: Seq<char>, pattern: Seq<char>, start: int, position: int)
    requires
        0 <= start <= position <= source.len(),
        position < source.len() ==> template::occurs_at(source, pattern, position),
        forall|i: int| start <= i < position ==> !#[trigger] template::occurs_at(source, pattern, i),
    ensures
        first_at(source, pattern, start) == position,
    decreases position - start,
{
    if start < position {
        assert(!template::occurs_at(source, pattern, start));
        lemma_first_at(source, pattern, start + 1, position);
    }
}

fn same_text(left: &String, right: &str) -> (result: bool)
    ensures
        result == (left@ == right@),
{
    let other = right.to_owned();
    *left == other
}

fn numeral(value: u64) -> (shown: String)
    ensures
        shown@ == text::decimal(value as nat),
{
    let mut shown = String::new();
    push_decimal(&mut shown, value);
    assert(shown@ =~= text::decimal(value as nat));
    shown
}

/// What a marker stands for.
pub fn marker_value(marker: &String) -> (value: Option<String>)
    ensures
        value is Some <==> marker_text(marker@) is Some,
        value matches Some(value) ==> Some(value@) == marker_text(marker@),
{
    if same_text(marker, "CALLBACK") {
        Some(VALUE_EVENT_FUNCTION.to_owned())
    } else if same_text(marker, "VALUE_SYMBOL") {
        Some(VALUE_SYMBOL.to_owned())
    } else if same_text(marker, "STATUS_SYMBOL") {
        Some(STATUS_SYMBOL.to_owned())
    } else if same_text(marker, "ERROR_SYMBOL") {
        Some(ERROR_SYMBOL.to_owned())
    } else if same_text(marker, "ERRNO_SYMBOL") {
        Some(ERRNO_SYMBOL.to_owned())
    } else if same_text(marker, "MAX_DEPTH") {
        Some(numeral(VALUE_MAX_DEPTH as u64))
    } else if same_text(marker, "CHUNK_CHARS") {
        Some(numeral(VALUE_CHUNK_CHARACTERS as u64))
    } else if same_text(marker, "BEGIN_LIST") {
        Some(numeral(EventCode::BeginList.code() as u64))
    } else if same_text(marker, "END_LIST") {
        Some(numeral(EventCode::EndList.code() as u64))
    } else if same_text(marker, "DOT") {
        Some(numeral(EventCode::Dot.code() as u64))
    } else if same_text(marker, "NIL") {
        Some(numeral(EventCode::Nil.code() as u64))
    } else if same_text(marker, "TRUE") {
        Some(numeral(EventCode::True.code() as u64))
    } else if same_text(marker, "INTEGER") {
        Some(numeral(EventCode::Integer.code() as u64))
    } else if same_text(marker, "REAL") {
        Some(numeral(EventCode::Real.code() as u64))
    } else if same_text(marker, "BEGIN_STRING") {
        Some(numeral(EventCode::BeginString.code() as u64))
    } else if same_text(marker, "STRING_CHUNK") {
        Some(numeral(EventCode::StringChunk.code() as u64))
    } else if same_text(marker, "END_STRING") {
        Some(numeral(EventCode::EndString.code() as u64))
    } else if same_text(marker, "BEGIN_SYMBOL") {
        Some(numeral(EventCode::BeginSymbol.code() as u64))
    } else if same_text(marker, "SYMBOL_CHUNK") {
        Some(numeral(EventCode::SymbolChunk.code() as u64))
    } else if same_text(marker, "END_SYMBOL") {
        Some(numeral(EventCode::EndSymbol.code() as u64))
    } else if same_text(marker, "ENTITY") {
        Some(numeral(EventCode::Entity.code() as u64))
    } else if same_text(marker, "SELECTION_SET") {
        Some(numeral(EventCode::SelectionSet.code() as u64))
    } else if same_text(marker, "VLA_OBJECT") {
        Some(numeral(EventCode::VlaObject.code() as u64))
    } else if same_text(marker, "FILE") {
        Some(numeral(EventCode::File.code() as u64))
    } else if same_text(marker, "FUNCTION") {
        Some(numeral(EventCode::Function.code() as u64))
    } else if same_text(marker, "ERROR_OBJECT") {
        Some(numeral(EventCode::ErrorObject.code() as u64))
    } else if same_text(marker, "OBJECT") {
        Some(numeral(EventCode::Object.code() as u64))
    } else if same_text(marker, "CYCLE") {
        Some(numeral(EventCode::Cycle.code() as u64))
    } else if same_text(marker, "TOO_DEEP") {
        Some(numeral(EventCode::TooDeep.code() as u64))
    } else {
        None
    }
}

/// The program, from its template.
pub fn render(program: &str) -> (rendered: Result<String, VisitorError>)
    ensures
        match rendered {
            Ok(rendered) => rendered_from(program@, 0) == Ok::<Seq<char>, VisitorError>(rendered@),
            Err(error) => rendered_from(program@, 0) == Err::<Seq<char>, VisitorError>(error),
        },
{
    let source = chars_of(program);
    let length: usize = source.len();
    let opening = chars_of("{{");
    let closing = chars_of("}}");
    proof {
        reveal_strlit("{{");
        reveal_strlit("}}");
    }
    let mut output = String::new();
    let mut start: usize = 0;
    let ghost whole = rendered_from(source@, 0);
    proof {
        let tail = rendered_from(source@, 0);
        if tail is Ok {
            assert(output@ + tail->Ok_0 =~= tail->Ok_0);
        }
    }
    loop
        invariant
            source@ == program@,
            whole == rendered_from(source@, 0),
            length == source@.len(),
            opening@ == "{{"@,
            closing@ == "}}"@,
            opening@.len() == 2,
            closing@.len() == 2,
            start <= length,
            whole == match rendered_from(source@, start as int) {
                Ok(rest) => Ok::<Seq<char>, VisitorError>(output@ + rest),
                Err(error) => Err(error),
            },
        decreases length - start,
    {
        let open: usize = match find_from(&source, &opening, start) {
            Some(open) => open,
            None => length,
        };
        proof {
            lemma_first_at(source@, opening@, start as int, open as int);
        }
        if open == length {
            push_chars(&mut output, &source, start, length);
            assert(source@.subrange(start as int, length as int) =~= source@.skip(start as int));
            return Ok(output);
        }
        let close: usize = match find_from(&source, &closing, open + 2) {
            Some(close) => close,
            None => length,
        };
        proof {
            lemma_first_at(source@, closing@, open + 2, close as int);
        }
        if close == length {
            return Err(VisitorError::OpenMarker);
        }
        let mut marker = String::new();
        push_chars(&mut marker, &source, open + 2, close);
        assert(marker@ =~= source@.subrange(open + 2, close as int));
        match marker_value(&marker) {
            Some(value) => {
                let ghost before = output@;
                push_chars(&mut output, &source, start, open);
                output.push_str(value.as_str());
                proof {
                    let tail = rendered_from(source@, close + 2);
                    if tail is Ok {
                        let prefix = source@.subrange(start as int, open as int);
                        assert(before + (prefix + value@ + tail->Ok_0) =~= output@ + tail->Ok_0);
                    }
                }
                start = close + 2;
            },
            None => {
                return Err(VisitorError::UnknownMarker);
            },
        }
    }
}

/// The number of an event stands for that event, with what came along as it is; with
/// anything else it stands for none.
pub proof fn law_sent_events_are_understood<'a>(
    integer: i64,
    number: RealText<'a>,
    string: &'a str,
    handle: Option<&'a str>,
    code: EventCode,
)
    ensures
        decoded(EventCode::Integer, Payload::Integer(integer)) == ValueEvent::<'a>::Integer(
            integer,
        ),
        decoded(EventCode::Real, Payload::Real(number)) == ValueEvent::<'a>::Real(number),
        decoded(EventCode::StringChunk, Payload::String(string)) == ValueEvent::<'a>::StringChunk(
            string,
        ),
        decoded(EventCode::SymbolChunk, Payload::String(string)) == ValueEvent::<'a>::SymbolChunk(
            string,
        ),
        decoded(EventCode::Entity, Payload::Entity(handle)) == ValueEvent::<'a>::Entity(handle),
        decoded(EventCode::Object, Payload::String(string)) == ValueEvent::<'a>::Object(
            Some(string),
        ),
        decoded(code, Payload::<'a>::Invalid) is Invalid,
        decoded(code, Payload::<'a>::Nil) is Invalid <==> code is Integer || code is Real || code
            is StringChunk || code is SymbolChunk || code is Entity || code is Object,
{
}

/// A program without markers stays as it is. A marker is replaced by what it stands for, and
/// the program before and behind it stays.
pub proof fn law_markers_are_replaced(front: Seq<char>, marker: Seq<char>, back: Seq<char>)
    requires
        marker_text(marker) is Some,
        forall|i: int| 0 <= i < front.len() ==> #[trigger] front[i] != '{',
        forall|i: int| 0 <= i < back.len() ==> #[trigger] back[i] != '{',
        forall|i: int| 0 <= i < marker.len() ==> #[trigger] marker[i] != '}',
    ensures
        rendered_from(back, 0) == Ok::<Seq<char>, VisitorError>(back),
        rendered_from(front + "{{"@ + marker + "}}"@ + back, 0) == Ok::<Seq<char>, VisitorError>(
            front + marker_text(marker)->0 + back,
        ),
{
    reveal_strlit("{{");
    reveal_strlit("}}");
    let source = front + "{{"@ + marker + "}}"@ + back;
    let open = front.len() as int;
    let close = open + 2 + marker.len();
    let end = close + 2;
    assert(source.len() == end + back.len());
    lemma_no_marker(back, 0);
    assert(back.skip(0) =~= back);
    assert(source.subrange(open, open + 2) =~= "{{"@);
    assert(template::occurs_at(source, "{{"@, open));
    assert forall|i: int| 0 <= i < open implies !#[trigger] template::occurs_at(
        source,
        "{{"@,
        i,
    ) by {
        if template::occurs_at(source, "{{"@, i) {
            assert(source.subrange(i, i + 2)[0] == source[i]);
            assert(source[i] == front[i]);
        }
    }
    lemma_first_at(source, "{{"@, 0, open);
    assert(source.subrange(close, close + 2) =~= "}}"@);
    assert(template::occurs_at(source, "}}"@, close));
    assert forall|i: int| open + 2 <= i < close implies !#[trigger] template::occurs_at(
        source,
        "}}"@,
        i,
    ) by {
        if template::occurs_at(source, "}}"@, i) {
            assert(source.subrange(i, i + 2)[0] == source[i]);
            assert(source[i] == marker[i - open - 2]);
        }
    }
    lemma_first_at(source, "}}"@, open + 2, close);
    assert(source.subrange(open + 2, close) =~= marker);
    assert forall|i: int| end <= i < source.len() implies #[trigger] source[i] != '{' by {
        assert(source[i] == back[i - end]);
    }
    lemma_no_marker(source, end);
    assert(source.skip(end) =~= back);
    assert(source.subrange(0, open) =~= front);
}

proof fn lemma_no_marker(source: Seq<char>, start: int)
    requires
        0 <= start <= source.len(),
        forall|i: int| start <= i < source.len() ==> #[trigger] source[i] != '{',
    ensures
        rendered_from(source, start) == Ok::<Seq<char>, VisitorError>(source.skip(start)),
{
    reveal_strlit("{{");
    assert forall|i: int| start <= i < source.len() implies !#[trigger] template::occurs_at(
        source,
        "{{"@,
        i,
    ) by {
        if template::occurs_at(source, "{{"@, i) {
            assert(source.subrange(i, i + 2)[0] == source[i]);
        }
    }
    lemma_first_at(source, "{{"@, start, source.len() as int);
}

/// The numbers that the markers of the events stand for.
pub proof fn law_markers_of_events()
    ensures
        event_text(EventCode::BeginList) == text::decimal(1),
        event_text(EventCode::EndList) == text::decimal(2),
        event_text(EventCode::Dot) == text::decimal(3),
        event_text(EventCode::Nil) == text::decimal(4),
        event_text(EventCode::True) == text::decimal(5),
        event_text(EventCode::Integer) == text::decimal(6),
        event_text(EventCode::Real) == text::decimal(7),
        event_text(EventCode::BeginString) == text::decimal(8),
        event_text(EventCode::StringChunk) == text::decimal(9),
        event_text(EventCode::EndString) == text::decimal(10),
        event_text(EventCode::BeginSymbol) == text::decimal(11),
        event_text(EventCode::SymbolChunk) == text::decimal(12),
        event_text(EventCode::EndSymbol) == text::decimal(13),
        event_text(EventCode::Entity) == text::decimal(14),
        event_text(EventCode::SelectionSet) == text::decimal(15),
        event_text(EventCode::VlaObject) == text::decimal(16),
        event_text(EventCode::File) == text::decimal(17),
        event_text(EventCode::Function) == text::decimal(18),
        event_text(EventCode::ErrorObject) == text::decimal(19),
        event_text(EventCode::Object) == text::decimal(20),
        event_text(EventCode::Cycle) == text::decimal(21),
        event_text(EventCode::TooDeep) == text::decimal(22),
{
}

} // verus!
