use acadctl_plugin::exec::io::{
    ExecIo, ValueBridgeFailure, ValueBridgeState, ValueOutputKind, ValueOutputLease,
};
use acadctl_plugin::execution::output::{
    channel, ChunkPoll, EmitResult, OutputSink, OUTPUT_BUFFER_BYTES,
};
use acadctl_plugin::execution::value::{PrintError, PrintMode, RealToken, ValuePrinter};
use acadctl_plugin::execution::value_bridge::{NativeValueWriter, ValueEvent, WriteResult};
use acadctl_plugin::execution::visitor::{
    marker_value, render, value_event, EventCode, Payload, VisitorError,
};
use acadctl_plugin::printing::{ListState, SymbolState, MAX_VALUE_DEPTH, MAX_VALUE_TEXT_BYTES};

fn collect(sink: &mut OutputSink) -> String {
    let mut output = String::new();
    loop {
        match sink.next_chunk() {
            ChunkPoll::Chunk(chunk) => output.push_str(&chunk),
            ChunkPoll::Pending | ChunkPoll::Ended => return output,
        }
    }
}

#[test]
fn concatenates_display_arguments_and_adds_one_newline() {
    let mut sink = channel();
    let mut printer = ValuePrinter::new(PrintMode::Display);
    printer.begin_string(&mut sink).unwrap();
    printer.string_chunk(&mut sink, "created: ").unwrap();
    printer.end_string(&mut sink).unwrap();
    printer.integer(&mut sink, 12).unwrap();
    printer.finish(&mut sink).unwrap();
    sink.finish();

    assert_eq!(collect(&mut sink), "created: 12\n");
}

#[test]
fn renders_readable_nested_strings_incrementally() {
    let mut sink = channel();
    let mut printer = ValuePrinter::new(PrintMode::Readable);
    printer.begin_list(&mut sink).unwrap();
    printer.integer(&mut sink, 1).unwrap();
    printer.begin_string(&mut sink).unwrap();
    printer.string_chunk(&mut sink, "a\"\\\u{1b}\u{2}\n\r\t中").unwrap();
    printer.end_string(&mut sink).unwrap();
    printer.nil(&mut sink).unwrap();
    printer.end_list(&mut sink).unwrap();
    printer.finish(&mut sink).unwrap();
    sink.finish();

    assert_eq!(
        collect(&mut sink),
        "(1 \"a\\\"\\\\\\e\\002\\n\\r\\t中\" nil)\n"
    );
}

#[test]
fn renders_proper_and_dotted_structure() {
    let mut sink = channel();
    let mut printer = ValuePrinter::new(PrintMode::Readable);
    printer.begin_list(&mut sink).unwrap();
    symbol(&mut printer, &mut sink, "A");
    printer.begin_list(&mut sink).unwrap();
    symbol(&mut printer, &mut sink, "B");
    printer.dot(&mut sink).unwrap();
    symbol(&mut printer, &mut sink, "C");
    printer.end_list(&mut sink).unwrap();
    printer.end_list(&mut sink).unwrap();
    printer.finish(&mut sink).unwrap();
    sink.finish();

    assert_eq!(collect(&mut sink), "(A (B . C))\n");
}

#[test]
fn applies_autolisp_backslash_semantics_to_symbols() {
    let mut readable_sink = channel();
    let mut readable = ValuePrinter::new(PrintMode::Readable);
    symbol(&mut readable, &mut readable_sink, "A\\B");
    readable.finish(&mut readable_sink).unwrap();
    readable_sink.finish();

    let mut display_sink = channel();
    let mut display = ValuePrinter::new(PrintMode::Display);
    symbol(&mut display, &mut display_sink, "A\\B");
    display.finish(&mut display_sink).unwrap();
    display_sink.finish();

    assert_eq!(collect(&mut readable_sink), "A\\\\B\n");
    assert_eq!(collect(&mut display_sink), "A\\B\n");
}

#[test]
fn distinguishes_symbols_from_numeric_and_nil_tokens_across_chunks() {
    for chunks in [
        &["123"][..],
        &["+", "123"][..],
        &["-1", "23"][..],
        &["1", "e", "3"][..],
        &["1e", "-", "3"][..],
        &["n", "I", "l"][..],
    ] {
        let mut sink = channel();
        let mut printer = ValuePrinter::new(PrintMode::Readable);
        printer.begin_symbol(&mut sink).unwrap();
        for chunk in chunks {
            printer.symbol_chunk(&mut sink, chunk).unwrap();
        }
        assert_eq!(printer.end_symbol(&mut sink), Err(PrintError::InvalidSequence));
    }

    for chunks in [
        &["+"][..],
        &["-"][..],
        &["123", "A"][..],
        &["1", "E"][..],
        &["1E", "+"][..],
    ] {
        let mut sink = channel();
        let mut printer = ValuePrinter::new(PrintMode::Readable);
        printer.begin_symbol(&mut sink).unwrap();
        for chunk in chunks {
            printer.symbol_chunk(&mut sink, chunk).unwrap();
        }
        printer.end_symbol(&mut sink).unwrap();
    }
}

#[test]
fn a_symbol_is_neither_nothing_nor_nil_nor_a_number() {
    let valid = |chunks: &[&str]| {
        let mut state = SymbolState::new();
        for chunk in chunks {
            state.push(chunk);
        }
        state.is_valid()
    };
    for chunks in [&[][..], &["", ""], &["N", "", "iL"], &["+0", "7"], &["1E", "+2"]] {
        assert!(!valid(chunks));
    }
    for chunks in [&["ni"][..], &["nill"], &["+", "-1"], &["1E", "+"], &["1e2", "e3"], &["e3"]] {
        assert!(valid(chunks));
    }
}

#[test]
fn uses_kind_specific_opaque_displays() {
    let mut sink = channel();
    let mut printer = ValuePrinter::new(PrintMode::Display);
    printer.begin_list(&mut sink).unwrap();
    printer.entity(&mut sink, Some("5a2")).unwrap();
    printer.selection_set(&mut sink, Some(7)).unwrap();
    printer.file(&mut sink).unwrap();
    printer.function(&mut sink, Some("TWICE")).unwrap();
    printer.function(&mut sink, Some("#<SUBR @123>")).unwrap();
    printer.end_list(&mut sink).unwrap();
    printer.finish(&mut sink).unwrap();
    sink.finish();

    assert_eq!(
        collect(&mut sink),
        "(#<Entity 5A2> #<SelectionSet 7> #<File> #<Function TWICE> #<Function>)\n"
    );
}

#[test]
fn accepts_only_autolisp_normalized_real_text() {
    let mut sink = channel();
    let mut printer = ValuePrinter::new(PrintMode::Readable);
    printer.begin_list(&mut sink).unwrap();
    for number in ["1.0", "0.0", "1.23457", "1.0e-12", "1.0e+20"] {
        printer.real_text(&mut sink, number_token(number)).unwrap();
    }
    assert_eq!(printer.real_text(&mut sink, number_token("NaN")), Err(PrintError::InvalidSequence));
    assert_eq!(printer.real_text(&mut sink, number_token("inf")), Err(PrintError::InvalidSequence));
    assert_eq!(printer.real_text(&mut sink, number_token(".5")), Err(PrintError::InvalidSequence));
    assert_eq!(printer.real_text(&mut sink, number_token("1.")), Err(PrintError::InvalidSequence));
    assert_eq!(printer.real_text(&mut sink, number_token("1.0e")), Err(PrintError::InvalidSequence));
    printer.end_list(&mut sink).unwrap();
    printer.finish(&mut sink).unwrap();
    sink.finish();

    assert_eq!(collect(&mut sink), "(1.0 0.0 1.23457 1.0e-12 1.0e+20)\n");
}

#[test]
fn value_rejects_malformed_or_oversized_events() {
    let mut sink = channel();
    let mut printer = ValuePrinter::new(PrintMode::Readable);
    assert_eq!(printer.dot(&mut sink), Err(PrintError::InvalidSequence));
    assert_eq!(
        printer.string_chunk(&mut sink, "not begun"),
        Err(PrintError::InvalidSequence)
    );
    printer.begin_symbol(&mut sink).unwrap();
    assert_eq!(printer.end_symbol(&mut sink), Err(PrintError::InvalidSequence));
    assert_eq!(
        printer.symbol_chunk(&mut sink, "not a symbol"),
        Err(PrintError::InvalidSequence)
    );
    assert_eq!(
        printer.symbol_chunk(&mut sink, &"x".repeat(MAX_VALUE_TEXT_BYTES + 1)),
        Err(PrintError::InvalidSequence)
    );
}

#[test]
fn value_observes_cancellation_while_skipping_excessive_depth() {
    let mut sink = channel();
    let mut printer = ValuePrinter::new(PrintMode::Readable);
    for _ in 0..=MAX_VALUE_DEPTH {
        printer.begin_list(&mut sink).unwrap();
    }
    sink.request_cancel();

    assert_eq!(
        printer.integer(&mut sink, 1),
        Err(PrintError::Output(EmitResult::Cancelled))
    );
}

#[test]
fn zero_output_atom_boundaries_observe_cancellation() {
    let mut symbol_sink = channel();
    let mut symbol_printer = ValuePrinter::new(PrintMode::Readable);
    symbol_printer.begin_symbol(&mut symbol_sink).unwrap();
    symbol_printer.symbol_chunk(&mut symbol_sink, "A").unwrap();
    symbol_sink.request_cancel();
    assert_eq!(
        symbol_printer.end_symbol(&mut symbol_sink),
        Err(PrintError::Output(EmitResult::Cancelled))
    );

    let mut string_sink = channel();
    let mut string_printer = ValuePrinter::new(PrintMode::Display);
    string_printer.begin_string(&mut string_sink).unwrap();
    string_sink.request_cancel();
    assert_eq!(
        string_printer.end_string(&mut string_sink),
        Err(PrintError::Output(EmitResult::Cancelled))
    );
}

#[test]
fn escapes_dense_control_text_without_changing_bytes() {
    let mut sink = channel();
    let mut printer = ValuePrinter::new(PrintMode::Readable);
    printer.begin_string(&mut sink).unwrap();
    printer
        .string_chunk(&mut sink, &"\u{2}".repeat(MAX_VALUE_TEXT_BYTES))
        .unwrap();
    printer.end_string(&mut sink).unwrap();
    printer.finish(&mut sink).unwrap();
    sink.finish();

    let expected = format!("\"{}\"\n", "\\002".repeat(MAX_VALUE_TEXT_BYTES));
    assert_eq!(collect(&mut sink), expected);
}

#[test]
fn replaces_excessive_depth_with_an_honest_opaque_value() {
    let mut sink = channel();
    let mut printer = ValuePrinter::new(PrintMode::Readable);
    for _ in 0..=MAX_VALUE_DEPTH {
        printer.begin_list(&mut sink).unwrap();
    }
    printer.integer(&mut sink, 1).unwrap();
    for _ in 0..=MAX_VALUE_DEPTH {
        printer.end_list(&mut sink).unwrap();
    }
    printer.finish(&mut sink).unwrap();
    sink.finish();

    let output = collect(&mut sink);
    assert!(output.contains("#<Object DepthLimit>"));
    assert!(!output.contains('1'));
    assert_eq!(std::mem::size_of::<ListState>(), 1);
}

#[test]
fn renders_large_escaped_strings_without_a_composite_buffer() {
    let mut sink = channel();
    let mut printer = ValuePrinter::new(PrintMode::Readable);
    printer.begin_string(&mut sink).unwrap();
    for _ in 0..10_000 {
        printer.string_chunk(&mut sink, "\"中").unwrap();
    }
    printer.end_string(&mut sink).unwrap();
    printer.finish(&mut sink).unwrap();
    sink.finish();

    let expected = format!("\"{}\"\n", "\\\"中".repeat(10_000));
    assert_eq!(collect(&mut sink), expected);
}

fn symbol(printer: &mut ValuePrinter, sink: &mut OutputSink, text: &str) {
    printer.begin_symbol(sink).unwrap();
    printer.symbol_chunk(sink, text).unwrap();
    printer.end_symbol(sink).unwrap();
}

fn number_token(text: &str) -> RealToken<'_> {
    RealToken { text, finite: text.parse::<f64>().is_ok_and(f64::is_finite) }
}

#[test]
fn eval_value_requires_exactly_one_root() {
    let mut io = execution_io();
    let mut writer = eval_value(&mut io);
    assert_eq!(writer.finish(&mut io), WriteResult::InvalidSequence);
    assert_eq!(close(&mut io), Some(ValueBridgeFailure::InvalidSequence));
}

#[test]
fn eval_value_accepts_one_nested_root_and_rejects_two_roots() {
    let mut one_io = execution_io();
    let mut one = eval_value(&mut one_io);
    assert_eq!(one.write(&mut one_io, ValueEvent::BeginList), WriteResult::Continue);
    assert_eq!(one.write(&mut one_io, ValueEvent::Integer(1)), WriteResult::Continue);
    assert_eq!(one.write(&mut one_io, ValueEvent::EndList), WriteResult::Continue);
    assert_eq!(one.finish(&mut one_io), WriteResult::Continue);
    assert_eq!(close(&mut one_io), None);

    let mut two_io = execution_io();
    let mut two = eval_value(&mut two_io);
    assert_eq!(two.write(&mut two_io, ValueEvent::Integer(1)), WriteResult::Continue);
    assert_eq!(two.write(&mut two_io, ValueEvent::Integer(2)), WriteResult::Continue);
    assert_eq!(two.finish(&mut two_io), WriteResult::InvalidSequence);
    assert_eq!(close(&mut two_io), Some(ValueBridgeFailure::InvalidSequence));
}

#[test]
fn eval_value_epoch_requires_exactly_one_writer_claim() {
    let mut io = execution_io();
    io.begin_value_output(ValueOutputKind::EvalValue);
    assert_eq!(close(&mut io), Some(ValueBridgeFailure::MissingValue));

    io.begin_value_output(ValueOutputKind::EvalValue);
    let lease = io
        .acquire_value_output(ValueOutputKind::EvalValue)
        .expect("first claim succeeds");
    let mut writer = NativeValueWriter::eval_value(lease, &mut io);
    assert!(io.acquire_value_output(ValueOutputKind::EvalValue).is_none());
    assert_eq!(writer.write(&mut io, ValueEvent::Nil), WriteResult::Continue);
    assert_eq!(writer.finish(&mut io), WriteResult::Continue);
    assert!(io.acquire_value_output(ValueOutputKind::EvalValue).is_none());
    assert_eq!(close(&mut io), None);
}

#[test]
fn disconnected_eval_writer_still_satisfies_the_required_claim() {
    let mut io = execution_io();
    let lease = eval_value_lease(&mut io);
    io.output.disconnect();

    let writer = NativeValueWriter::eval_value(lease, &mut io);
    assert_eq!(writer.result(), WriteResult::Disconnected);
    assert_eq!(close(&mut io), None);
}

#[test]
fn a_blocked_value_ends_with_the_final_answer() {
    let full = |io: &mut ExecIo| {
        let text = "x".repeat(OUTPUT_BUFFER_BYTES - 1);
        assert_eq!(io.output.emit(&text), EmitResult::Written);
    };
    let mut io = execution_io();
    let mut writer = eval_value(&mut io);
    full(&mut io);
    assert_eq!(writer.write(&mut io, ValueEvent::Integer(7)), WriteResult::Continue);
    assert_eq!(writer.finish(&mut io), WriteResult::Blocked);
    assert!(writer.active(&io));
    assert_eq!(writer.resume(&mut io), WriteResult::Blocked);
    assert!(matches!(io.output.next_chunk(), ChunkPoll::Chunk(_)));
    assert_eq!(writer.resume(&mut io), WriteResult::Continue);
    assert!(!writer.active(&io));
    assert_eq!(close(&mut io), None);
    assert!(collect(&mut io.output).ends_with("7\n"));

    let mut io = execution_io();
    let mut writer = eval_value(&mut io);
    full(&mut io);
    assert_eq!(writer.write(&mut io, ValueEvent::Integer(77)), WriteResult::Blocked);
    io.output.request_cancel();
    assert_eq!(writer.resume(&mut io), WriteResult::Cancelled);
    assert_eq!(close(&mut io), Some(ValueBridgeFailure::PostCommitCancelled));
}

#[test]
fn dropping_an_active_writer_records_an_abandoned_bridge() {
    let mut io = execution_io();
    eval_value(&mut io).abandon(&mut io);
    assert_eq!(close(&mut io), Some(ValueBridgeFailure::Abandoned));
}

fn execution_io() -> ExecIo {
    ExecIo {
        output: channel(),
        bridge: ValueBridgeState {
            generation: 0,
            open_kind: None,
            port_active: false,
            port_claimed: false,
            failure: None,
        },
    }
}

fn eval_value_lease(io: &mut ExecIo) -> ValueOutputLease {
    io.begin_value_output(ValueOutputKind::EvalValue);
    io.acquire_value_output(ValueOutputKind::EvalValue)
        .expect("eval value output is open")
}

fn eval_value(io: &mut ExecIo) -> NativeValueWriter {
    let lease = eval_value_lease(io);
    NativeValueWriter::eval_value(lease, io)
}

fn close(io: &mut ExecIo) -> Option<ValueBridgeFailure> {
    io.close_value_output(ValueOutputKind::EvalValue)
}

#[test]
fn visitor_owns_private_event_codes_and_payload_validation() {
    assert!(matches!(
        value_event(EventCode::StringChunk.code(), Payload::String("x")),
        ValueEvent::StringChunk("x")
    ));
    assert!(matches!(
        value_event(EventCode::StringChunk.code(), Payload::Nil),
        ValueEvent::Invalid
    ));
    assert!(matches!(
        value_event(EventCode::Cycle.code(), Payload::Nil),
        ValueEvent::Cycle
    ));
    assert!(matches!(
        value_event(EventCode::TooDeep.code(), Payload::Nil),
        ValueEvent::TooDeep
    ));
}

#[test]
fn visitor_program_gets_its_markers_filled_in() {
    let callback = marker_value(&"CALLBACK".to_owned()).unwrap();
    assert_eq!(render("({{CALLBACK}} 1)").unwrap(), format!("({callback} 1)"));
    assert_eq!(render("no markers").unwrap(), "no markers");
    assert_eq!(render("({{CALLBACK"), Err(VisitorError::OpenMarker));
    assert_eq!(render("{{NOBODY}}"), Err(VisitorError::UnknownMarker));
    assert_eq!(marker_value(&"NOBODY".to_owned()), None);
}

#[test]
fn values_of_no_known_type_are_shown_by_their_number() {
    let mut sink = channel();
    let mut printer = ValuePrinter::new(PrintMode::Display);
    printer.begin_list(&mut sink).unwrap();
    printer.unsupported(&mut sink, Some(5016)).unwrap();
    printer.unsupported(&mut sink, None).unwrap();
    printer.void(&mut sink).unwrap();
    printer.end_list(&mut sink).unwrap();
    printer.finish(&mut sink).unwrap();
    sink.finish();

    assert_eq!(collect(&mut sink), "(#<Object RT5016> #<Object> #<Void>)\n");
}
