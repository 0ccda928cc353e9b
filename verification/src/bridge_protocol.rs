//! Names and programs that the plugin and its AutoLISP code agree on.
use vstd::prelude::*;

use crate::template;
use crate::template::{render, text_marker, Marker, RenderError};

verus! {

pub const VALUE_EVENT_FUNCTION: &'static str = "acadctl:_value-event";

pub const ADVANCE_EXECUTION_FUNCTION: &'static str = "acadctl:_advance-execution";

pub const DRIVE_EXECUTION_FUNCTION: &'static str = "acadctl:_drive-execution";

pub const INVALID_FORM_SPAN_FUNCTION: &'static str = "acadctl:_invalid-form-span";

pub const SOURCE_SYMBOL: &'static str = "acadctl:*bridge-source*";

pub const STAGED_FORM_SYMBOL: &'static str = "acadctl:*bridge-staged-form*";

pub const STATUS_SYMBOL: &'static str = "acadctl:*bridge-status*";

pub const ERROR_SYMBOL: &'static str = "acadctl:*bridge-error*";

pub const ERRNO_SYMBOL: &'static str = "acadctl:*bridge-errno*";

pub const VALUE_SYMBOL: &'static str = "acadctl:*bridge-value*";

pub const PENDING_STATUS: &'static str = "pending";

pub const VALUE_MAX_DEPTH: usize = 4096;

pub const VALUE_CHUNK_CHARACTERS: usize = 2048;

pub const NATIVE_VALUE_CHUNK_CAPTURE_UNITS: usize = VALUE_CHUNK_CHARACTERS * 2;

/// The call that drives an execution.
pub fn execution_driver_expression() -> (expression: String)
    ensures
        expression@ == "("@ + DRIVE_EXECUTION_FUNCTION@ + ")"@,
{
    let mut expression = "(".to_owned();
    expression.push_str(DRIVE_EXECUTION_FUNCTION);
    expression.push_str(")");
    expression
}

/// The call as a line of input.
pub fn execution_driver_invocation() -> (line: String)
    ensures
        line@ == "("@ + DRIVE_EXECUTION_FUNCTION@ + ")"@ + "\n"@,
{
    let mut line = execution_driver_expression();
    line.push_str("\n");
    line
}

pub open spec fn driver_markers() -> Seq<(Seq<char>, Seq<char>)> {
    seq![
        ("ADVANCE_EXECUTION_FUNCTION"@, ADVANCE_EXECUTION_FUNCTION@),
        ("DRIVE_EXECUTION_FUNCTION"@, DRIVE_EXECUTION_FUNCTION@),
        ("STAGED_FORM_SYMBOL"@, STAGED_FORM_SYMBOL@),
    ]
}

/// The program that drives an execution, from its template.
pub fn execution_driver_source(driver: &str) -> (program: Result<String, RenderError>)
    ensures
        template::result_view(program) == template::rendered(driver@, driver_markers()),
{
    let mut markers: Vec<Marker> = Vec::new();
    markers.push(text_marker("ADVANCE_EXECUTION_FUNCTION", ADVANCE_EXECUTION_FUNCTION));
    markers.push(text_marker("DRIVE_EXECUTION_FUNCTION", DRIVE_EXECUTION_FUNCTION));
    markers.push(text_marker("STAGED_FORM_SYMBOL", STAGED_FORM_SYMBOL));
    assert(template::markers_view(markers@) =~= driver_markers());
    render(driver, &markers)
}

/// A rendered driver has no open marker, and holds the function that the call names, the
/// function that advances an execution and the symbol of the staged form.
pub proof fn law_driver_holds_what_it_needs(driver: Seq<char>)
    requires
        template::rendered(driver, driver_markers()) is Ok,
    ensures
        ({
            let program = template::rendered(driver, driver_markers())->Ok_0;
            &&& !template::occurs(program, "{{"@)
            &&& template::occurs(program, ADVANCE_EXECUTION_FUNCTION@)
            &&& template::occurs(program, DRIVE_EXECUTION_FUNCTION@)
            &&& template::occurs(program, STAGED_FORM_SYMBOL@)
        }),
{
    let markers = driver_markers();
    reveal_strlit("{{");
    reveal_strlit("}}");
    reveal_strlit("DRIVE_EXECUTION_FUNCTION");
    reveal_strlit("STAGED_FORM_SYMBOL");
    reveal_strlit("acadctl:_advance-execution");
    reveal_strlit("acadctl:_drive-execution");
    reveal_with_fuel(template::without, 30);
    assert(template::without(ADVANCE_EXECUTION_FUNCTION@, '{', 26));
    assert(template::without(DRIVE_EXECUTION_FUNCTION@, '{', 24));
    assert(template::without("DRIVE_EXECUTION_FUNCTION"@, 'a', 24));
    assert(template::without("STAGED_FORM_SYMBOL"@, 'a', 18));
    template::lemma_without(ADVANCE_EXECUTION_FUNCTION@, '{', 26);
    template::lemma_without(DRIVE_EXECUTION_FUNCTION@, '{', 24);
    template::lemma_without("DRIVE_EXECUTION_FUNCTION"@, 'a', 24);
    template::lemma_without("STAGED_FORM_SYMBOL"@, 'a', 18);
    template::law_plain_value_is_apart(ADVANCE_EXECUTION_FUNCTION@, "DRIVE_EXECUTION_FUNCTION"@);
    template::law_plain_value_is_apart(ADVANCE_EXECUTION_FUNCTION@, "STAGED_FORM_SYMBOL"@);
    template::law_plain_value_is_apart(DRIVE_EXECUTION_FUNCTION@, "STAGED_FORM_SYMBOL"@);
    template::law_value_stays(driver, markers, 0);
    template::law_value_stays(driver, markers, 1);
    template::law_value_stays(driver, markers, 2);
}

pub open spec fn evaluator_markers() -> Seq<(Seq<char>, Seq<char>)> {
    seq![
        ("SOURCE_SYMBOL"@, SOURCE_SYMBOL@),
        ("STATUS_SYMBOL"@, STATUS_SYMBOL@),
        ("ERROR_SYMBOL"@, ERROR_SYMBOL@),
        ("ERRNO_SYMBOL"@, ERRNO_SYMBOL@),
        ("VALUE_SYMBOL"@, VALUE_SYMBOL@),
        ("INVALID_FORM_SPAN_FUNCTION"@, INVALID_FORM_SPAN_FUNCTION@),
    ]
}

/// The program that evaluates one form, from its template.
pub fn form_evaluator_source(evaluator: &str) -> (program: Result<String, RenderError>)
    ensures
        template::result_view(program) == template::rendered(evaluator@, evaluator_markers()),
{
    let mut markers: Vec<Marker> = Vec::new();
    markers.push(text_marker("SOURCE_SYMBOL", SOURCE_SYMBOL));
    markers.push(text_marker("STATUS_SYMBOL", STATUS_SYMBOL));
    markers.push(text_marker("ERROR_SYMBOL", ERROR_SYMBOL));
    markers.push(text_marker("ERRNO_SYMBOL", ERRNO_SYMBOL));
    markers.push(text_marker("VALUE_SYMBOL", VALUE_SYMBOL));
    markers.push(text_marker("INVALID_FORM_SPAN_FUNCTION", INVALID_FORM_SPAN_FUNCTION));
    assert(template::markers_view(markers@) =~= evaluator_markers());
    render(evaluator, &markers)
}

/// The program that evaluates a form is given the symbols that the plugin reads, each by its
/// own name.
pub proof fn law_evaluator_is_given_its_symbols()
    ensures
        evaluator_markers().contains(("SOURCE_SYMBOL"@, SOURCE_SYMBOL@)),
        evaluator_markers().contains(("STATUS_SYMBOL"@, STATUS_SYMBOL@)),
        evaluator_markers().contains(("ERROR_SYMBOL"@, ERROR_SYMBOL@)),
        evaluator_markers().contains(("ERRNO_SYMBOL"@, ERRNO_SYMBOL@)),
        evaluator_markers().contains(("VALUE_SYMBOL"@, VALUE_SYMBOL@)),
        evaluator_markers().contains(("INVALID_FORM_SPAN_FUNCTION"@, INVALID_FORM_SPAN_FUNCTION@)),
{
    let markers = evaluator_markers();
    assert(markers[0] == ("SOURCE_SYMBOL"@, SOURCE_SYMBOL@));
    assert(markers[1] == ("STATUS_SYMBOL"@, STATUS_SYMBOL@));
    assert(markers[2] == ("ERROR_SYMBOL"@, ERROR_SYMBOL@));
    assert(markers[3] == ("ERRNO_SYMBOL"@, ERRNO_SYMBOL@));
    assert(markers[4] == ("VALUE_SYMBOL"@, VALUE_SYMBOL@));
    assert(markers[5] == ("INVALID_FORM_SPAN_FUNCTION"@, INVALID_FORM_SPAN_FUNCTION@));
}

} // verus!
