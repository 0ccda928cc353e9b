use acadctl_plugin::exec::io::{ExecIo, ValueBridgeFailure, ValueOutputKind, ValueOutputLease};
use acadctl_plugin::exec::protocol::OutputEventCode;
use acadctl_plugin::exec::value::event::{
    output_event, OutputEvent, Payload, ProtocolViolation, ValueEvent,
};
use acadctl_plugin::exec::value::number::{format_autolisp_real, RealText};
use acadctl_plugin::exec::value::port::{NativeOutputPort, WriteResult};
use acadctl_plugin::exec::value::printer::{PrintError, ValuePrinter};
use acadctl_plugin::exec::output::resume;
use acadctl_plugin::execution::output::{
    channel, ChunkPoll, EmitResult, OutputSink, OUTPUT_BUFFER_BYTES,
};
use acadctl_plugin::printing::{MAX_VALUE_DEPTH, MAX_VALUE_TEXT_BYTES};

fn collect(sink: &mut OutputSink) -> String {
    let mut output = String::new();
    loop {
        match sink.next_chunk() {
            ChunkPoll::Chunk(chunk) => output.push_str(&chunk),
            ChunkPoll::Pending | ChunkPoll::Ended => return output,
        }
    }
}

fn shown(value: f64) -> Option<String> {
    if !value.is_finite() {
        format_autolisp_real(RealText::NotFinite)
    } else if value == 0.0 {
        format_autolisp_real(RealText::Zero)
    } else {
        format_autolisp_real(RealText::Scientific(&format!("{value:.5e}")))
    }
}

#[test]
fn rejects_numeric_and_nil_symbols_across_chunks() {
    for chunks in [
        &["123"][..],
        &["+", "123"][..],
        &["-1", "23"][..],
        &["1", "e", "3"][..],
        &["1e", "-", "3"][..],
        &["n", "I", "l"][..],
    ] {
        let mut sink = channel();
        let mut printer = ValuePrinter::new();
        printer.begin_symbol(&mut sink).unwrap();

        for chunk in chunks {
            printer.symbol_chunk(&mut sink, chunk).unwrap();
        }

        assert_eq!(printer.end_symbol(&mut sink), Err(PrintError::InvalidSequence));
    }
}

#[test]
fn normalizes_or_rejects_opaque_payloads() {
    let mut sink = channel();
    let mut printer = ValuePrinter::new();
    printer.begin_list(&mut sink).unwrap();
    printer.entity(&mut sink, Some("5a2")).unwrap();
    printer.entity(&mut sink, Some("not-a-handle")).unwrap();
    printer.object(&mut sink, Some("bad label")).unwrap();
    printer.end_list(&mut sink).unwrap();
    printer.finish(&mut sink).unwrap();
    sink.finish();

    assert_eq!(
        collect(&mut sink),
        "((handent \"5A2\") #<Entity> #<Object>)\n"
    );
}

#[test]
fn matches_live_autolisp_real_rounding() {
    for (value, expected) in [
        (9.999994, "9.99999"),
        (9.999995, "10.0"),
        (999_999.4, "999999.0"),
        (999_999.5, "1.0e+06"),
        (0.000_099_999_94, "9.99999e-05"),
        (0.000_099_999_95, "0.0001"),
        (999_996.5, "999996.0"),
        (999_997.5, "999998.0"),
        (999_998.5, "999998.0"),
        (100_000.5, "100000.0"),
    ] {
        assert_eq!(shown(value).as_deref(), Some(expected));
        let negative = format!("-{expected}");
        assert_eq!(
            shown(-value).as_deref(),
            Some(negative.as_str())
        );
    }

    assert_eq!(
        shown(f64::MAX).as_deref(),
        Some("1.79769e+308")
    );
    assert_eq!(
        shown(f64::MIN_POSITIVE).as_deref(),
        Some("2.22507e-308")
    );
    assert_eq!(shown(-0.0).as_deref(), Some("0.0"));
    assert_eq!(shown(f64::NAN), None);
    assert_eq!(shown(f64::INFINITY), None);
}

#[test]
fn printer_rejects_malformed_or_oversized_events() {
    let mut sink = channel();
    let mut printer = ValuePrinter::new();
    assert_eq!(printer.dot(&mut sink), Err(PrintError::InvalidSequence));
    assert_eq!(
        printer.string_chunk(&mut sink, "not begun"),
        Err(PrintError::InvalidSequence)
    );
    printer.begin_symbol(&mut sink).unwrap();
    assert_eq!(printer.end_symbol(&mut sink), Err(PrintError::InvalidSequence));
    assert_eq!(
        printer.symbol_chunk(&mut sink, "not a symbol"),
        Err(PrintError::InvalidSequence)
    );
    assert_eq!(
        printer.symbol_chunk(&mut sink, &"x".repeat(MAX_VALUE_TEXT_BYTES + 1)),
        Err(PrintError::InvalidSequence)
    );
}

#[test]
fn printer_observes_cancellation_while_skipping_excessive_depth() {
    let mut sink = channel();
    let mut printer = ValuePrinter::new();

    for _ in 0..=MAX_VALUE_DEPTH {
        printer.begin_list(&mut sink).unwrap();
    }

    sink.request_cancel();

    assert_eq!(
        printer.integer(&mut sink, 1),
        Err(PrintError::Output(WriteResult::Cancelled))
    );
}

#[test]
fn replaces_excessive_depth_with_too_deep() {
    let mut sink = channel();
    let mut printer = ValuePrinter::new();

    for _ in 0..=MAX_VALUE_DEPTH {
        printer.begin_list(&mut sink).unwrap();
    }

    printer.integer(&mut sink, 1).unwrap();

    for _ in 0..=MAX_VALUE_DEPTH {
        printer.end_list(&mut sink).unwrap();
    }

    printer.finish(&mut sink).unwrap();
    sink.finish();

    let output = collect(&mut sink);
    assert!(output.contains("#<TooDeep>"));
    assert!(!output.contains('1'));
}


#[test]
fn form_port_orders_lines_and_repeated_values() {
    let mut io = execution_io();
    let mut port = open_port(&mut io, ValueOutputKind::Form);

    assert_eq!(
        port.write(&mut io, Ok(OutputEvent::Println("layers"))),
        WriteResult::Continue
    );
    for value in [1, 2] {
        assert_eq!(
            port.write(&mut io, Ok(OutputEvent::BeginValue)),
            WriteResult::Continue
        );
        assert_eq!(
            port.write(&mut io, Ok(OutputEvent::Value(ValueEvent::Integer(value)))),
            WriteResult::Continue
        );
        assert_eq!(port.write(&mut io, Ok(OutputEvent::EndValue)), WriteResult::Continue);
    }

    assert_eq!(port.finish(&mut io), WriteResult::Continue);
    assert_eq!(io.close_value_output(ValueOutputKind::Form), None);
    io.output.finish();
    assert_eq!(collect(&mut io.output), "layers\n1\n2\n");
}

#[test]
fn eval_port_requires_exactly_one_value_and_rejects_println() {
    let mut missing = execution_io();
    let port = open_port(&mut missing, ValueOutputKind::EvalValue);
    assert_eq!(port.finish(&mut missing), WriteResult::InvalidSequence);
    assert_eq!(
        missing.close_value_output(ValueOutputKind::EvalValue),
        Some(ValueBridgeFailure::MissingValue)
    );

    let mut explicit = execution_io();
    let mut port = open_port(&mut explicit, ValueOutputKind::EvalValue);
    assert_eq!(
        port.write(&mut explicit, Ok(OutputEvent::Println("invalid"))),
        WriteResult::InvalidSequence
    );
    assert_eq!(port.finish(&mut explicit), WriteResult::InvalidSequence);
    assert_eq!(
        explicit.close_value_output(ValueOutputKind::EvalValue),
        Some(ValueBridgeFailure::InvalidSequence)
    );
}

#[test]
fn disconnected_form_port_stays_claimed_and_suppresses_output() {
    let mut io = execution_io();
    let lease = claim(&mut io, ValueOutputKind::Form);
    io.output.disconnect();

    let mut port = NativeOutputPort::form(lease, &mut io);
    assert!(port.claimed(&io));
    assert_eq!(
        port.write(&mut io, Ok(OutputEvent::BeginValue)),
        WriteResult::Disconnected
    );
    assert_eq!(port.finish(&mut io), WriteResult::Disconnected);
    assert_eq!(io.close_value_output(ValueOutputKind::Form), None);
}



fn filled(io: &mut ExecIo, room: usize) {
    let text = "x".repeat(OUTPUT_BUFFER_BYTES - room);
    assert_eq!(io.output.emit(&text), EmitResult::Written);
}

#[test]
fn a_blocked_line_is_readable_once_it_is_answered() {
    let mut io = execution_io();
    let mut port = open_port(&mut io, ValueOutputKind::Form);
    filled(&mut io, 3);
    assert_eq!(
        port.write(&mut io, Ok(OutputEvent::Println("layers"))),
        WriteResult::Blocked
    );
    assert_eq!(port.resume(&mut io.output), WriteResult::Blocked);
    assert!(matches!(io.output.next_chunk(), ChunkPoll::Chunk(_)));
    assert_eq!(port.resume(&mut io.output), WriteResult::Continue);
    assert!(collect(&mut io.output).ends_with("xlayers\n"));

    assert_eq!(port.write(&mut io, Ok(OutputEvent::BeginValue)), WriteResult::Continue);
    filled(&mut io, 1);
    assert_eq!(
        port.write(&mut io, Ok(OutputEvent::Value(ValueEvent::Integer(1)))),
        WriteResult::Continue
    );
    assert_eq!(port.write(&mut io, Ok(OutputEvent::EndValue)), WriteResult::Blocked);
    assert!(matches!(io.output.next_chunk(), ChunkPoll::Chunk(_)));
    assert_eq!(port.resume(&mut io.output), WriteResult::Continue);
    assert!(collect(&mut io.output).ends_with("x1\n"));
    assert_eq!(port.finish(&mut io), WriteResult::Continue);
    assert_eq!(io.close_value_output(ValueOutputKind::Form), None);
}

#[test]
fn a_blocked_port_fails_with_what_ends_the_channel() {
    let mut io = execution_io();
    let mut port = open_port(&mut io, ValueOutputKind::EvalValue);
    filled(&mut io, 1);
    assert_eq!(port.write(&mut io, Ok(OutputEvent::BeginValue)), WriteResult::Continue);
    assert_eq!(
        port.write(&mut io, Ok(OutputEvent::Value(ValueEvent::Integer(12)))),
        WriteResult::Blocked
    );
    io.output.request_cancel();
    assert_eq!(port.resume(&mut io.output), WriteResult::Cancelled);
    assert_eq!(port.write(&mut io, Ok(OutputEvent::EndValue)), WriteResult::Cancelled);
    assert_eq!(port.finish(&mut io), WriteResult::Cancelled);
    assert_eq!(
        io.close_value_output(ValueOutputKind::EvalValue),
        Some(ValueBridgeFailure::PostCommitCancelled)
    );
    assert_eq!(collect(&mut io.output).len(), OUTPUT_BUFFER_BYTES);
}

#[test]
fn a_blocked_printer_says_so() {
    let mut sink = channel();
    assert_eq!(sink.emit(&"x".repeat(OUTPUT_BUFFER_BYTES)), EmitResult::Written);
    let mut printer = ValuePrinter::new();
    assert_eq!(printer.nil(&mut sink), Err(PrintError::Output(WriteResult::Blocked)));
    assert!(matches!(sink.next_chunk(), ChunkPoll::Chunk(_)));
    assert_eq!(resume(&mut sink), WriteResult::Continue);
    assert_eq!(printer.finish(&mut sink), Ok(()));
    assert!(collect(&mut sink).ends_with("xnil\n"));
}

fn execution_io() -> ExecIo {
    ExecIo::new(channel())
}

fn claim(io: &mut ExecIo, kind: ValueOutputKind) -> ValueOutputLease {
    io.begin_value_output(kind);
    io.acquire_value_output(kind)
        .expect("output port claim succeeds")
}

fn open_port(io: &mut ExecIo, kind: ValueOutputKind) -> NativeOutputPort {
    let lease = claim(io, kind);
    match kind {
        ValueOutputKind::Form => NativeOutputPort::form(lease, io),
        ValueOutputKind::EvalValue => NativeOutputPort::eval_value(lease, io),
    }
}

#[test]
fn event_owns_private_event_codes_and_payload_validation() {
    assert!(matches!(
        output_event(OutputEventCode::StringChunk.code(), Payload::String("x")),
        Ok(OutputEvent::Value(ValueEvent::StringChunk("x")))
    ));
    assert!(matches!(
        output_event(OutputEventCode::StringChunk.code(), Payload::Nil),
        Err(ProtocolViolation)
    ));
    assert!(matches!(
        output_event(OutputEventCode::Cycle.code(), Payload::Nil),
        Ok(OutputEvent::Value(ValueEvent::Cycle))
    ));
    assert!(matches!(
        output_event(OutputEventCode::Label.code(), Payload::String("x")),
        Ok(OutputEvent::Label("x"))
    ));
}