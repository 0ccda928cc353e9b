//! Names, event numbers and programs that the plugin and its AutoLISP code agree on.
use vstd::prelude::*;

use crate::template;
use crate::template::{number_marker, render, text_marker, Marker, RenderError};
use crate::text;

verus! {

pub const OUTPUT_EVENT_FUNCTION: &'static str = "actl:_output-event";

pub const ADVANCE_EXECUTION_FUNCTION: &'static str = "actl:_advance-execution";

pub const DRIVE_EXECUTION_FUNCTION: &'static str = "actl:_drive-execution";

pub const EMIT_VALUE_FUNCTION: &'static str = "actl:_emit-value";

pub const EMIT_RETAINED_VALUE_FUNCTION: &'static str = "actl:_emit-retained-value";

pub const INVALID_FORM_SPAN_FUNCTION: &'static str = "actl:_invalid-form-span";

pub const SOURCE_SYMBOL: &'static str = "actl:*bridge-source*";

pub const STAGED_FORM_SYMBOL: &'static str = "actl:*bridge-staged-form*";

pub const STATUS_SYMBOL: &'static str = "actl:*bridge-status*";

pub const ERROR_SYMBOL: &'static str = "actl:*bridge-error*";

pub const ERRNO_SYMBOL: &'static str = "actl:*bridge-errno*";

pub const VALUE_SYMBOL: &'static str = "actl:*bridge-value*";

pub const PENDING_STATUS: &'static str = "pending";

pub const VALUE_MAX_DEPTH: usize = 4096;

pub const VALUE_CHUNK_CHARACTERS: usize = 2048;

pub const NATIVE_VALUE_CHUNK_CAPTURE_UNITS: usize = VALUE_CHUNK_CHARACTERS * 2;

/// The output events.
#[derive(Clone, Copy, Debug, PartialEq, Eq, Structural)]
pub enum OutputEventCode {
    BeginList,
    EndList,
    Dot,
    Nil,
    True,
    Integer,
    Real,
    BeginString,
    StringChunk,
    EndString,
    BeginSymbol,
    SymbolChunk,
    EndSymbol,
    Entity,
    SelectionSet,
    VlaObject,
    File,
    Function,
    ErrorObject,
    Object,
    Cycle,
    TooDeep,
    BeginValue,
    EndValue,
    Label,
    InvalidLabel,
}

impl OutputEventCode {
    /// The number that stands for the event.
    pub open spec fn number(self) -> int {
        match self {
            OutputEventCode::BeginList => 1,
            OutputEventCode::EndList => 2,
            OutputEventCode::Dot => 3,
            OutputEventCode::Nil => 4,
            OutputEventCode::True => 5,
            OutputEventCode::Integer => 6,
            OutputEventCode::Real => 7,
            OutputEventCode::BeginString => 8,
            OutputEventCode::StringChunk => 9,
            OutputEventCode::EndString => 10,
            OutputEventCode::BeginSymbol => 11,
            OutputEventCode::SymbolChunk => 12,
            OutputEventCode::EndSymbol => 13,
            OutputEventCode::Entity => 14,
            OutputEventCode::SelectionSet => 15,
            OutputEventCode::VlaObject => 16,
            OutputEventCode::File => 17,
            OutputEventCode::Function => 18,
            OutputEventCode::ErrorObject => 19,
            OutputEventCode::Object => 20,
            OutputEventCode::Cycle => 21,
            OutputEventCode::TooDeep => 22,
            OutputEventCode::BeginValue => 23,
            OutputEventCode::EndValue => 24,
            OutputEventCode::Label => 25,
            OutputEventCode::InvalidLabel => 26,
        }
    }

    pub fn code(self) -> (code: i32)
        ensures
            code == self.number(),
    {
        match self {
            OutputEventCode::BeginList => 1,
            OutputEventCode::EndList => 2,
            OutputEventCode::Dot => 3,
            OutputEventCode::Nil => 4,
            OutputEventCode::True => 5,
            OutputEventCode::Integer => 6,
            OutputEventCode::Real => 7,
            OutputEventCode::BeginString => 8,
            OutputEventCode::StringChunk => 9,
            OutputEventCode::EndString => 10,
            OutputEventCode::BeginSymbol => 11,
            OutputEventCode::SymbolChunk => 12,
            OutputEventCode::EndSymbol => 13,
            OutputEventCode::Entity => 14,
            OutputEventCode::SelectionSet => 15,
            OutputEventCode::VlaObject => 16,
            OutputEventCode::File => 17,
            OutputEventCode::Function => 18,
            OutputEventCode::ErrorObject => 19,
            OutputEventCode::Object => 20,
            OutputEventCode::Cycle => 21,
            OutputEventCode::TooDeep => 22,
            OutputEventCode::BeginValue => 23,
            OutputEventCode::EndValue => 24,
            OutputEventCode::Label => 25,
            OutputEventCode::InvalidLabel => 26,
        }
    }

    /// The event that a number stands for.
    pub fn from_code(code: i32) -> (event: Option<OutputEventCode>)
        ensures
            event is Some <==> 1 <= code <= 26,
            event matches Some(event) ==> event.number() == code,
    {
        match code {
            1 => Some(OutputEventCode::BeginList),
            2 => Some(OutputEventCode::EndList),
            3 => Some(OutputEventCode::Dot),
            4 => Some(OutputEventCode::Nil),
            5 => Some(OutputEventCode::True),
            6 => Some(OutputEventCode::Integer),
            7 => Some(OutputEventCode::Real),
            8 => Some(OutputEventCode::BeginString),
            9 => Some(OutputEventCode::StringChunk),
            10 => Some(OutputEventCode::EndString),
            11 => Some(OutputEventCode::BeginSymbol),
            12 => Some(OutputEventCode::SymbolChunk),
            13 => Some(OutputEventCode::EndSymbol),
            14 => Some(OutputEventCode::Entity),
            15 => Some(OutputEventCode::SelectionSet),
            16 => Some(OutputEventCode::VlaObject),
            17 => Some(OutputEventCode::File),
            18 => Some(OutputEventCode::Function),
            19 => Some(OutputEventCode::ErrorObject),
            20 => Some(OutputEventCode::Object),
            21 => Some(OutputEventCode::Cycle),
            22 => Some(OutputEventCode::TooDeep),
            23 => Some(OutputEventCode::BeginValue),
            24 => Some(OutputEventCode::EndValue),
            25 => Some(OutputEventCode::Label),
            26 => Some(OutputEventCode::InvalidLabel),
            _ => None,
        }
    }
}

/// No two events have the same number.
pub proof fn law_numbers_tell_events_apart(left: OutputEventCode, right: OutputEventCode)
    requires
        left.number() == right.number(),
    ensures
        left == right,
{
}

/// The call that drives an execution.
pub fn execution_driver_expression() -> (expression: String)
    ensures
        expression@ == "("@ + DRIVE_EXECUTION_FUNCTION@ + ")"@,
{
    let mut expression = "(".to_owned();
    expression.push_str(DRIVE_EXECUTION_FUNCTION);
    expression.push_str(")");
    expression
}

/// The call as a line of input.
pub fn execution_driver_invocation() -> (line: String)
    ensures
        line@ == "("@ + DRIVE_EXECUTION_FUNCTION@ + ")"@ + "\n"@,
{
    let mut line = execution_driver_expression();
    line.push_str("\n");
    line
}

/// The call that emits the retained value of an evaluation.
pub fn eval_value_emitter_expression() -> (expression: String)
    ensures
        expression@ == "("@ + EMIT_RETAINED_VALUE_FUNCTION@ + ")"@,
{
    let mut expression = "(".to_owned();
    expression.push_str(EMIT_RETAINED_VALUE_FUNCTION);
    expression.push_str(")");
    expression
}

/// A marker replaced by the number of an event.
pub open spec fn event_marker(name: Seq<char>, event: OutputEventCode) -> (Seq<char>, Seq<char>) {
    (name, text::decimal(event.number() as nat))
}

fn event_number(name: &'static str, event: OutputEventCode) -> (marker: Marker)
    ensures
        template::marker_view(marker) == event_marker(name@, event),
{
    number_marker(name, event.code() as u64)
}

pub open spec fn emitter_markers() -> Seq<(Seq<char>, Seq<char>)> {
    seq![
        event_marker("BEGIN_LIST"@, OutputEventCode::BeginList),
        event_marker("BEGIN_STRING"@, OutputEventCode::BeginString),
        event_marker("BEGIN_SYMBOL"@, OutputEventCode::BeginSymbol),
        event_marker("BEGIN_VALUE"@, OutputEventCode::BeginValue),
        ("CALLBACK"@, OUTPUT_EVENT_FUNCTION@),
        ("CHUNK_CHARS"@, text::decimal(VALUE_CHUNK_CHARACTERS as nat)),
        event_marker("CYCLE"@, OutputEventCode::Cycle),
        event_marker("DOT"@, OutputEventCode::Dot),
        ("EMIT_VALUE_FUNCTION"@, EMIT_VALUE_FUNCTION@),
        event_marker("END_LIST"@, OutputEventCode::EndList),
        event_marker("END_STRING"@, OutputEventCode::EndString),
        event_marker("END_SYMBOL"@, OutputEventCode::EndSymbol),
        event_marker("END_VALUE"@, OutputEventCode::EndValue),
        event_marker("ENTITY"@, OutputEventCode::Entity),
        event_marker("ERROR_OBJECT"@, OutputEventCode::ErrorObject),
        event_marker("FILE"@, OutputEventCode::File),
        event_marker("FUNCTION"@, OutputEventCode::Function),
        event_marker("INTEGER"@, OutputEventCode::Integer),
        ("MAX_DEPTH"@, text::decimal(VALUE_MAX_DEPTH as nat)),
        event_marker("NIL"@, OutputEventCode::Nil),
        event_marker("OBJECT"@, OutputEventCode::Object),
        event_marker("REAL"@, OutputEventCode::Real),
        event_marker("SELECTION_SET"@, OutputEventCode::SelectionSet),
        event_marker("STRING_CHUNK"@, OutputEventCode::StringChunk),
        event_marker("SYMBOL_CHUNK"@, OutputEventCode::SymbolChunk),
        event_marker("TOO_DEEP"@, OutputEventCode::TooDeep),
        event_marker("TRUE"@, OutputEventCode::True),
        event_marker("VLA_OBJECT"@, OutputEventCode::VlaObject),
    ]
}

/// The program that emits a value event by event, from its template.
pub fn value_emitter_source(emitter: &str) -> (program: Result<String, RenderError>)
    ensures
        template::result_view(program) == template::rendered(emitter@, emitter_markers()),
{
    let mut markers: Vec<Marker> = Vec::new();
    markers.push(event_number("BEGIN_LIST", OutputEventCode::BeginList));
    markers.push(event_number("BEGIN_STRING", OutputEventCode::BeginString));
    markers.push(event_number("BEGIN_SYMBOL", OutputEventCode::BeginSymbol));
    markers.push(event_number("BEGIN_VALUE", OutputEventCode::BeginValue));
    markers.push(text_marker("CALLBACK", OUTPUT_EVENT_FUNCTION));
    markers.push(number_marker("CHUNK_CHARS", VALUE_CHUNK_CHARACTERS as u64));
    markers.push(event_number("CYCLE", OutputEventCode::Cycle));
    markers.push(event_number("DOT", OutputEventCode::Dot));
    markers.push(text_marker("EMIT_VALUE_FUNCTION", EMIT_VALUE_FUNCTION));
    markers.push(event_number("END_LIST", OutputEventCode::EndList));
    markers.push(event_number("END_STRING", OutputEventCode::EndString));
    markers.push(event_number("END_SYMBOL", OutputEventCode::EndSymbol));
    markers.push(event_number("END_VALUE", OutputEventCode::EndValue));
    markers.push(event_number("ENTITY", OutputEventCode::Entity));
    markers.push(event_number("ERROR_OBJECT", OutputEventCode::ErrorObject));
    markers.push(event_number("FILE", OutputEventCode::File));
    markers.push(event_number("FUNCTION", OutputEventCode::Function));
    markers.push(event_number("INTEGER", OutputEventCode::Integer));
    markers.push(number_marker("MAX_DEPTH", VALUE_MAX_DEPTH as u64));
    markers.push(event_number("NIL", OutputEventCode::Nil));
    markers.push(event_number("OBJECT", OutputEventCode::Object));
    markers.push(event_number("REAL", OutputEventCode::Real));
    markers.push(event_number("SELECTION_SET", OutputEventCode::SelectionSet));
    markers.push(event_number("STRING_CHUNK", OutputEventCode::StringChunk));
    markers.push(event_number("SYMBOL_CHUNK", OutputEventCode::SymbolChunk));
    markers.push(event_number("TOO_DEEP", OutputEventCode::TooDeep));
    markers.push(event_number("TRUE", OutputEventCode::True));
    markers.push(event_number("VLA_OBJECT", OutputEventCode::VlaObject));
    assert(template::markers_view(markers@) =~= emitter_markers());
    render(emitter, &markers)
}

/// `emitter` is the rendered program that emits values.
pub open spec fn driver_markers(emitter: Seq<char>) -> Seq<(Seq<char>, Seq<char>)> {
    seq![
        ("ADVANCE_EXECUTION_FUNCTION"@, ADVANCE_EXECUTION_FUNCTION@),
        ("DRIVE_EXECUTION_FUNCTION"@, DRIVE_EXECUTION_FUNCTION@),
        ("EMIT_RETAINED_VALUE_FUNCTION"@, EMIT_RETAINED_VALUE_FUNCTION@),
        ("EMIT_VALUE_FUNCTION"@, EMIT_VALUE_FUNCTION@),
        ("ERRNO_SYMBOL"@, ERRNO_SYMBOL@),
        ("ERROR_SYMBOL"@, ERROR_SYMBOL@),
        event_marker("INVALID_LABEL_EVENT"@, OutputEventCode::InvalidLabel),
        event_marker("LABEL_EVENT"@, OutputEventCode::Label),
        ("OUTPUT_EVENT_FUNCTION"@, OUTPUT_EVENT_FUNCTION@),
        ("STATUS_SYMBOL"@, STATUS_SYMBOL@),
        ("STAGED_FORM_SYMBOL"@, STAGED_FORM_SYMBOL@),
        ("VALUE_EMITTER"@, emitter),
        ("VALUE_SYMBOL"@, VALUE_SYMBOL@),
    ]
}

/// The program that drives an execution, from its template and from that of the
/// program that emits values.
pub fn execution_driver_source(driver: &str, emitter: &str) -> (program: Result<
    String,
    RenderError,
>)
    ensures
        template::result_view(program) == match template::rendered(emitter@, emitter_markers()) {
            Ok(emitter) => template::rendered(driver@, driver_markers(emitter)),
            Err(error) => Err(error),
        },
{
    let emitter = match value_emitter_source(emitter) {
        Ok(emitter) => emitter,
        Err(error) => return Err(error),
    };
    let mut markers: Vec<Marker> = Vec::new();
    markers.push(text_marker("ADVANCE_EXECUTION_FUNCTION", ADVANCE_EXECUTION_FUNCTION));
    markers.push(text_marker("DRIVE_EXECUTION_FUNCTION", DRIVE_EXECUTION_FUNCTION));
    markers.push(text_marker("EMIT_RETAINED_VALUE_FUNCTION", EMIT_RETAINED_VALUE_FUNCTION));
    markers.push(text_marker("EMIT_VALUE_FUNCTION", EMIT_VALUE_FUNCTION));
    markers.push(text_marker("ERRNO_SYMBOL", ERRNO_SYMBOL));
    markers.push(text_marker("ERROR_SYMBOL", ERROR_SYMBOL));
    markers.push(event_number("INVALID_LABEL_EVENT", OutputEventCode::InvalidLabel));
    markers.push(event_number("LABEL_EVENT", OutputEventCode::Label));
    markers.push(text_marker("OUTPUT_EVENT_FUNCTION", OUTPUT_EVENT_FUNCTION));
    markers.push(text_marker("STATUS_SYMBOL", STATUS_SYMBOL));
    markers.push(text_marker("STAGED_FORM_SYMBOL", STAGED_FORM_SYMBOL));
    markers.push(text_marker("VALUE_EMITTER", emitter.as_str()));
    markers.push(text_marker("VALUE_SYMBOL", VALUE_SYMBOL));
    assert(template::markers_view(markers@) =~= driver_markers(emitter@));
    render(driver, &markers)
}

/// The emitter stands in the filled driver at a place that the last marker does not reach
/// into.
pub open spec fn emitter_stands_clear(driver: Seq<char>, emitter: Seq<char>) -> bool {
    template::filled(driver, driver_markers(emitter).drop_last()) matches Ok(text)
        && template::stands_clear(text, emitter, template::placeholder("VALUE_SYMBOL"@))
}

/// A rendered driver has no open marker, and holds the functions that the calls name, the
/// function that advances an execution and the symbol of the staged form. It holds the
/// rendered emitter verbatim wherever that stands clear of the last marker.
pub proof fn law_driver_holds_what_it_needs(driver: Seq<char>, emitter: Seq<char>)
    requires
        template::rendered(driver, driver_markers(emitter)) is Ok,
    ensures
        ({
            let program = template::rendered(driver, driver_markers(emitter))->Ok_0;
            &&& !template::occurs(program, "{{"@)
            &&& template::occurs(program, ADVANCE_EXECUTION_FUNCTION@)
            &&& template::occurs(program, DRIVE_EXECUTION_FUNCTION@)
            &&& template::occurs(program, EMIT_RETAINED_VALUE_FUNCTION@)
            &&& template::occurs(program, STAGED_FORM_SYMBOL@)
            &&& emitter_stands_clear(driver, emitter) ==> template::occurs(program, emitter)
        }),
{
    let markers = driver_markers(emitter);
    reveal_strlit("actl:_advance-execution");
    reveal_strlit("actl:_drive-execution");
    reveal_strlit("actl:_emit-retained-value");
    reveal_strlit("actl:*bridge-staged-form*");
    reveal_with_fuel(template::without, 30);
    assert(template::without(ADVANCE_EXECUTION_FUNCTION@, '{', 23));
    assert(template::without(DRIVE_EXECUTION_FUNCTION@, '{', 21));
    assert(template::without(EMIT_RETAINED_VALUE_FUNCTION@, '{', 25));
    assert(template::without(STAGED_FORM_SYMBOL@, '{', 25));
    lemma_name_stays(driver, emitter, 0);
    lemma_name_stays(driver, emitter, 1);
    lemma_name_stays(driver, emitter, 2);
    lemma_name_stays(driver, emitter, 10);
    if emitter_stands_clear(driver, emitter) {
        assert(markers.last().0 == "VALUE_SYMBOL"@);
        template::law_clear_value_stays(driver, markers, emitter);
    }
}

/// An emitter that holds no open marker, does not end in an opening brace and begins with
/// a character that is not in the last marker stands clear of it in every driver.
pub proof fn law_ordinary_emitter_stands_clear(driver: Seq<char>, emitter: Seq<char>)
    requires
        template::rendered(driver, driver_markers(emitter)) is Ok,
        emitter.len() > 0,
        !template::occurs(emitter, "{{"@),
        emitter.last() != '{',
        !template::placeholder("VALUE_SYMBOL"@).contains(emitter[0]),
    ensures
        emitter_stands_clear(driver, emitter),
{
    let markers = driver_markers(emitter).drop_last();
    let text = template::filled(driver, markers)->Ok_0;
    let pattern = template::placeholder("VALUE_SYMBOL"@);
    assert(markers[11] == ("VALUE_EMITTER"@, emitter));
    template::law_value_stays(driver, markers, 11);
    template::law_closed_value_is_apart(emitter, "VALUE_SYMBOL"@);
    let at = choose|at: int| #[trigger] template::occurs_at(text, emitter, at);
    assert(template::clear_at(text, emitter, at, pattern));
}

/// No marker of the driver after the first holds a small `a`.
proof fn lemma_marker_names(emitter: Seq<char>, later: int)
    requires
        0 < later < driver_markers(emitter).len(),
    ensures
        !template::placeholder(driver_markers(emitter)[later].0).contains('a'),
{
    reveal_strlit("DRIVE_EXECUTION_FUNCTION");
    reveal_strlit("EMIT_RETAINED_VALUE_FUNCTION");
    reveal_strlit("EMIT_VALUE_FUNCTION");
    reveal_strlit("ERRNO_SYMBOL");
    reveal_strlit("ERROR_SYMBOL");
    reveal_strlit("INVALID_LABEL_EVENT");
    reveal_strlit("LABEL_EVENT");
    reveal_strlit("OUTPUT_EVENT_FUNCTION");
    reveal_strlit("STATUS_SYMBOL");
    reveal_strlit("STAGED_FORM_SYMBOL");
    reveal_strlit("VALUE_EMITTER");
    reveal_strlit("VALUE_SYMBOL");
    reveal_strlit("{{");
    reveal_strlit("}}");
    reveal_with_fuel(template::without, 30);
    assert(template::without("DRIVE_EXECUTION_FUNCTION"@, 'a', 24));
    assert(template::without("EMIT_RETAINED_VALUE_FUNCTION"@, 'a', 28));
    assert(template::without("EMIT_VALUE_FUNCTION"@, 'a', 19));
    assert(template::without("ERRNO_SYMBOL"@, 'a', 12));
    assert(template::without("ERROR_SYMBOL"@, 'a', 12));
    assert(template::without("INVALID_LABEL_EVENT"@, 'a', 19));
    assert(template::without("LABEL_EVENT"@, 'a', 11));
    assert(template::without("OUTPUT_EVENT_FUNCTION"@, 'a', 21));
    assert(template::without("STATUS_SYMBOL"@, 'a', 13));
    assert(template::without("STAGED_FORM_SYMBOL"@, 'a', 18));
    assert(template::without("VALUE_EMITTER"@, 'a', 13));
    assert(template::without("VALUE_SYMBOL"@, 'a', 12));
    let name = driver_markers(emitter)[later].0;
    template::lemma_without(name, 'a', name.len());
}

proof fn lemma_name_stays(driver: Seq<char>, emitter: Seq<char>, index: int)
    requires
        template::filled(driver, driver_markers(emitter)) is Ok,
        0 <= index < driver_markers(emitter).len(),
        driver_markers(emitter)[index].1.len() > 0,
        driver_markers(emitter)[index].1[0] == 'a',
        template::without(
            driver_markers(emitter)[index].1,
            '{',
            driver_markers(emitter)[index].1.len(),
        ),
    ensures
        template::occurs(
            template::filled(driver, driver_markers(emitter))->Ok_0,
            driver_markers(emitter)[index].1,
        ),
{
    let markers = driver_markers(emitter);
    let value = markers[index].1;
    template::lemma_without(value, '{', value.len());
    assert forall|later: int| index < later < markers.len() implies template::apart(
        value,
        template::placeholder((#[trigger] markers[later]).0),
    ) by {
        lemma_marker_names(emitter, later);
        template::law_plain_value_is_apart(value, markers[later].0);
    }
    template::law_value_stays(driver, markers, index);
}

pub open spec fn evaluator_markers() -> Seq<(Seq<char>, Seq<char>)> {
    seq![
        ("SOURCE_SYMBOL"@, SOURCE_SYMBOL@),
        ("STATUS_SYMBOL"@, STATUS_SYMBOL@),
        ("ERROR_SYMBOL"@, ERROR_SYMBOL@),
        ("ERRNO_SYMBOL"@, ERRNO_SYMBOL@),
        ("VALUE_SYMBOL"@, VALUE_SYMBOL@),
        ("INVALID_FORM_SPAN_FUNCTION"@, INVALID_FORM_SPAN_FUNCTION@),
    ]
}

/// The program that evaluates one form, from its template.
pub fn form_evaluator_source(evaluator: &str) -> (program: Result<String, RenderError>)
    ensures
        template::result_view(program) == template::rendered(evaluator@, evaluator_markers()),
{
    let mut markers: Vec<Marker> = Vec::new();
    markers.push(text_marker("SOURCE_SYMBOL", SOURCE_SYMBOL));
    markers.push(text_marker("STATUS_SYMBOL", STATUS_SYMBOL));
    markers.push(text_marker("ERROR_SYMBOL", ERROR_SYMBOL));
    markers.push(text_marker("ERRNO_SYMBOL", ERRNO_SYMBOL));
    markers.push(text_marker("VALUE_SYMBOL", VALUE_SYMBOL));
    markers.push(text_marker("INVALID_FORM_SPAN_FUNCTION", INVALID_FORM_SPAN_FUNCTION));
    assert(template::markers_view(markers@) =~= evaluator_markers());
    render(evaluator, &markers)
}

/// The program that evaluates a form is given the symbols that the plugin reads, each by its
/// own name.
pub proof fn law_evaluator_is_given_its_symbols()
    ensures
        evaluator_markers().contains(("SOURCE_SYMBOL"@, SOURCE_SYMBOL@)),
        evaluator_markers().contains(("STATUS_SYMBOL"@, STATUS_SYMBOL@)),
        evaluator_markers().contains(("ERROR_SYMBOL"@, ERROR_SYMBOL@)),
        evaluator_markers().contains(("ERRNO_SYMBOL"@, ERRNO_SYMBOL@)),
        evaluator_markers().contains(("VALUE_SYMBOL"@, VALUE_SYMBOL@)),
        evaluator_markers().contains(("INVALID_FORM_SPAN_FUNCTION"@, INVALID_FORM_SPAN_FUNCTION@)),
{
    let markers = evaluator_markers();
    assert(markers[0] == ("SOURCE_SYMBOL"@, SOURCE_SYMBOL@));
    assert(markers[1] == ("STATUS_SYMBOL"@, STATUS_SYMBOL@));
    assert(markers[2] == ("ERROR_SYMBOL"@, ERROR_SYMBOL@));
    assert(markers[3] == ("ERRNO_SYMBOL"@, ERRNO_SYMBOL@));
    assert(markers[4] == ("VALUE_SYMBOL"@, VALUE_SYMBOL@));
    assert(markers[5] == ("INVALID_FORM_SPAN_FUNCTION"@, INVALID_FORM_SPAN_FUNCTION@));
}

} // verus!
