use acadctl_plugin::bridge::{
    interpret_lisp_observation, native_diagnostic_capture_units, write_lisp_output_event,
    NativeLispObservation, NativeLispOutputEvent, NativeLispPayloadKind, NativeLispStatusKind,
};
use acadctl_plugin::bridge_protocol;
use acadctl_plugin::exec::io::{ExecIo, ValueOutputKind};
use acadctl_plugin::exec::output::channel;
use acadctl_plugin::exec::protocol;
use acadctl_plugin::exec::protocol::OutputEventCode;
use acadctl_plugin::exec::value::number::RealText;
use acadctl_plugin::exec::value::port::{NativeOutputPort, WriteResult};
use acadctl_plugin::exec::{ExecStepResult, ExecStepResultKind};
use acadctl_plugin::execution::output::{ChunkPoll, OutputSink};
use acadctl_plugin::template::RenderError;

fn observation(status_kind: NativeLispStatusKind) -> NativeLispObservation {
    NativeLispObservation {
        command_status: 0,
        status_kind,
        status_read_status: 0,
        errno_available: false,
        lisp_errno: 7,
        error_available: false,
        error_text: "unused".into(),
        error_text_truncated: true,
        malformed_status: -5001,
    }
}

fn failed(kind: ExecStepResultKind, native_status: i32) -> ExecStepResult {
    ExecStepResult {
        kind,
        native_status,
        lisp_errno: 0,
        detail: String::new(),
        bridge_symbols_clear_status: 0,
    }
}

#[test]
fn what_was_not_available_is_not_read() {
    let plan = interpret_lisp_observation(observation(NativeLispStatusKind::Nil), true);
    assert_eq!(plan.result, failed(ExecStepResultKind::LispError, 0));
    assert!(!plan.retain_value);

    let mut seen = observation(NativeLispStatusKind::Nil);
    seen.errno_available = true;
    seen.error_available = true;
    let plan = interpret_lisp_observation(seen, true);
    assert_eq!(plan.result.lisp_errno, 7);
    assert_eq!(plan.result.detail, "unused... [truncated]");
}

#[test]
fn a_status_of_no_kind_counts_as_unavailable() {
    let plan = interpret_lisp_observation(observation(NativeLispStatusKind::Unknown(9)), true);
    assert_eq!(plan.result, failed(ExecStepResultKind::NativeError, -5001));
    let plan = interpret_lisp_observation(observation(NativeLispStatusKind::Unavailable), true);
    assert_eq!(plan.result, failed(ExecStepResultKind::NativeError, -5001));
    let plan = interpret_lisp_observation(observation(NativeLispStatusKind::True), true);
    assert_eq!(plan.result, failed(ExecStepResultKind::Success, 0));
    assert!(plan.retain_value);
    let plan = interpret_lisp_observation(observation(NativeLispStatusKind::True), false);
    assert!(!plan.retain_value);
}

#[test]
fn one_unit_more_than_a_diagnostic_is_captured() {
    assert_eq!(native_diagnostic_capture_units(), 16385);
}

fn collect(sink: &mut OutputSink) -> String {
    let mut text = String::new();
    while let ChunkPoll::Chunk(chunk) = sink.next_chunk() {
        text.push_str(&chunk);
    }
    text
}

fn opened() -> (ExecIo, NativeOutputPort) {
    let mut io = ExecIo::new(channel());
    io.begin_value_output(ValueOutputKind::Form);
    let lease = io.acquire_value_output(ValueOutputKind::Form).unwrap();
    let port = NativeOutputPort::form(lease, &mut io);
    (io, port)
}

fn event(code: OutputEventCode, payload_kind: NativeLispPayloadKind) -> NativeLispOutputEvent {
    NativeLispOutputEvent { code: code.code(), payload_kind, integer: -3, has_text: true }
}

#[test]
fn what_autolisp_sends_is_written() {
    let (mut io, mut port) = opened();
    let sent = [
        (OutputEventCode::Label, NativeLispPayloadKind::String),
        (OutputEventCode::BeginValue, NativeLispPayloadKind::Nil),
        (OutputEventCode::BeginList, NativeLispPayloadKind::Nil),
        (OutputEventCode::Integer, NativeLispPayloadKind::Integer),
        (OutputEventCode::Nil, NativeLispPayloadKind::Nil),
        (OutputEventCode::EndList, NativeLispPayloadKind::Nil),
        (OutputEventCode::EndValue, NativeLispPayloadKind::Nil),
    ];
    for (code, payload) in sent {
        let answer = write_lisp_output_event(
            &mut port,
            &mut io,
            event(code, payload),
            RealText::NotFinite,
            "layers",
        );
        assert_eq!(answer, WriteResult::Continue);
    }
    assert_eq!(port.finish(&mut io), WriteResult::Continue);
    io.output.finish();
    assert_eq!(collect(&mut io.output), "--- layers ---\n(-3 nil)\n");
}

#[test]
fn a_payload_of_no_kind_breaks_the_protocol() {
    for payload in [NativeLispPayloadKind::Invalid, NativeLispPayloadKind::Unknown(77)] {
        let (mut io, mut port) = opened();
        let answer = write_lisp_output_event(
            &mut port,
            &mut io,
            event(OutputEventCode::BeginValue, payload),
            RealText::NotFinite,
            "",
        );
        assert_eq!(answer, WriteResult::InvalidSequence);
        assert_eq!(port.finish(&mut io), WriteResult::InvalidSequence);
    }
}

#[test]
fn event_numbers_are_read_back() {
    for code in 1..=26 {
        assert_eq!(OutputEventCode::from_code(code).unwrap().code(), code);
    }
    assert_eq!(OutputEventCode::from_code(0), None);
    assert_eq!(OutputEventCode::from_code(27), None);
}

#[test]
fn calls_name_the_agreed_functions() {
    assert_eq!(
        bridge_protocol::execution_driver_invocation(),
        format!("({})\n", bridge_protocol::DRIVE_EXECUTION_FUNCTION)
    );
    assert_eq!(
        protocol::execution_driver_invocation(),
        format!("({})\n", protocol::DRIVE_EXECUTION_FUNCTION)
    );
    assert_eq!(
        protocol::eval_value_emitter_expression(),
        format!("({})", protocol::EMIT_RETAINED_VALUE_FUNCTION)
    );
}

#[test]
fn driver_programs_get_their_names() {
    let driver = "(defun {{DRIVE_EXECUTION_FUNCTION}} () ({{ADVANCE_EXECUTION_FUNCTION}} {{STAGED_FORM_SYMBOL}}))";
    assert_eq!(
        bridge_protocol::execution_driver_source(driver),
        Ok(
            "(defun acadctl:_drive-execution () (acadctl:_advance-execution acadctl:*bridge-staged-form*))"
                .into()
        )
    );
    assert_eq!(
        bridge_protocol::execution_driver_source("()"),
        Err(RenderError::UnusedMarker(0))
    );
    assert_eq!(
        bridge_protocol::form_evaluator_source("{{SOURCE_SYMBOL}}"),
        Err(RenderError::UnusedMarker(1))
    );
    assert_eq!(
        protocol::value_emitter_source("{{BEGIN_LIST}}"),
        Err(RenderError::UnusedMarker(1))
    );
}

const EMITTER_MARKERS: [&str; 28] = [
    "BEGIN_LIST",
    "BEGIN_STRING",
    "BEGIN_SYMBOL",
    "BEGIN_VALUE",
    "CALLBACK",
    "CHUNK_CHARS",
    "CYCLE",
    "DOT",
    "EMIT_VALUE_FUNCTION",
    "END_LIST",
    "END_STRING",
    "END_SYMBOL",
    "END_VALUE",
    "ENTITY",
    "ERROR_OBJECT",
    "FILE",
    "FUNCTION",
    "INTEGER",
    "MAX_DEPTH",
    "NIL",
    "OBJECT",
    "REAL",
    "SELECTION_SET",
    "STRING_CHUNK",
    "SYMBOL_CHUNK",
    "TOO_DEEP",
    "TRUE",
    "VLA_OBJECT",
];

const DRIVER_MARKERS: [&str; 12] = [
    "ADVANCE_EXECUTION_FUNCTION",
    "DRIVE_EXECUTION_FUNCTION",
    "EMIT_RETAINED_VALUE_FUNCTION",
    "EMIT_VALUE_FUNCTION",
    "ERRNO_SYMBOL",
    "ERROR_SYMBOL",
    "INVALID_LABEL_EVENT",
    "LABEL_EVENT",
    "OUTPUT_EVENT_FUNCTION",
    "STATUS_SYMBOL",
    "STAGED_FORM_SYMBOL",
    "VALUE_SYMBOL",
];

fn with_markers(start: &str, names: &[&str], end: &str) -> String {
    let mut template = start.to_owned();
    for name in names {
        template.push_str(&format!(" {{{{{name}}}}}"));
    }
    template.push_str(end);
    template
}

#[test]
fn a_rendered_emitter_holds_the_numbers_of_its_events() {
    assert_eq!(
        protocol::value_emitter_source(&with_markers("(", &EMITTER_MARKERS, ")")),
        Ok(format!(
            "( 1 8 11 23 {} 2048 21 3 {} 2 10 13 24 14 19 17 18 6 4096 4 20 7 15 9 12 22 5 16)",
            protocol::OUTPUT_EVENT_FUNCTION,
            protocol::EMIT_VALUE_FUNCTION
        ))
    );
}

#[test]
fn a_rendered_driver_holds_the_emitter_and_the_named_functions() {
    let template = with_markers("(", &EMITTER_MARKERS, ")");
    let emitter = protocol::value_emitter_source(&template).unwrap();
    let driver = with_markers("{{VALUE_EMITTER}}", &DRIVER_MARKERS, "");
    let program = protocol::execution_driver_source(&driver, &template).unwrap();
    assert!(!program.contains("{{"));
    assert!(program.contains(&emitter));
    for name in [
        protocol::ADVANCE_EXECUTION_FUNCTION,
        protocol::DRIVE_EXECUTION_FUNCTION,
        protocol::EMIT_RETAINED_VALUE_FUNCTION,
        protocol::STAGED_FORM_SYMBOL,
    ] {
        assert!(program.contains(name));
    }
    assert_eq!(
        protocol::execution_driver_source(&format!("{driver}{{{{OTHER}}}}"), &template),
        Err(RenderError::UnknownMarker)
    );
    assert_eq!(
        protocol::execution_driver_source(&driver, "()"),
        Err(RenderError::UnusedMarker(0))
    );
}

#[test]
fn an_emitter_that_ends_in_a_brace_can_grow_into_a_marker() {
    let template = with_markers("(", &EMITTER_MARKERS, ") {");
    let emitter = protocol::value_emitter_source(&template).unwrap();
    let driver = with_markers("", &DRIVER_MARKERS, " {{VALUE_EMITTER}}{VALUE_SYMBOL}}");
    let program = protocol::execution_driver_source(&driver, &template).unwrap();
    assert!(!program.contains(&emitter));
    assert!(program.ends_with(&format!(" {}", protocol::VALUE_SYMBOL)));
}
