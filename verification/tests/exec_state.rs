use acadctl_plugin::exec::diagnostic::{
    append_diagnostic, bounded_diagnostic, bounded_native_diagnostic,
};
use acadctl_plugin::exec::lisp::{
    complete_cleanup, interpret_lisp, prepare_cleanup, LispObservation, LispStatus,
    NativeDiagnostic,
};
use acadctl_plugin::exec::outcome::{
    DrawingOutcome, ExecFailure, ExecMode, ExecOutcome, SourceLocation, SourceValidationError,
};
use acadctl_plugin::exec::source::{FormSpan, ScanError, SourceScan};
use acadctl_plugin::exec::state::Exec;
use acadctl_plugin::exec::value::event::{OutputEvent, ValueEvent};
use acadctl_plugin::exec::value::port::{NativeOutputPort, WriteResult};
use acadctl_plugin::exec::{label, println as lines, ExecStepKind, ExecStepResult, ExecStepResultKind};
use acadctl_plugin::execution::output::{channel, ChunkPoll, OutputSink};
use acadctl_plugin::limits::{MAX_DIAGNOSTIC_BYTES, MAX_EXECUTION_SOURCE_BYTES};
use bytes::Bytes;

/// A small form scanner: atoms, strings, comments and lists.
fn scan(source: &str) -> SourceScan {
    let text = source.strip_prefix('\u{feff}').unwrap_or(source);
    let mut forms: Vec<Result<FormSpan, ScanError>> = Vec::new();
    let mut depth = 0usize;
    let mut start: Option<(usize, usize, usize)> = None;
    let (mut line, mut column) = (1usize, 1usize);
    let (mut in_comment, mut in_text) = (false, false);
    for (offset, ch) in text.char_indices() {
        let delimiter = ch.is_whitespace() || ch == ';' || ch == '(' || ch == ')';
        if in_comment {
            in_comment = ch != '\n';
        } else if in_text {
            in_text = ch != '"';
        } else {
            if depth == 0 && delimiter {
                if let Some((byte_start, line, column)) = start.take() {
                    forms.push(Ok(FormSpan { byte_start, byte_end: offset, line, column }));
                }
            }
            if ch == ';' {
                in_comment = true;
            } else if !ch.is_whitespace() {
                if start.is_none() {
                    start = Some((offset, line, column));
                }
                in_text = ch == '"';
                if ch == '(' {
                    depth += 1;
                } else if ch == ')' {
                    depth -= 1;
                    if depth == 0 {
                        let (byte_start, line, column) = start.take().unwrap();
                        forms.push(Ok(FormSpan { byte_start, byte_end: offset + 1, line, column }));
                    }
                }
            }
        }
        if ch == '\n' {
            line += 1;
            column = 1;
        } else {
            column += 1;
        }
    }
    if depth > 0 || in_text {
        let error = || ScanError { message: "the list is not closed".into(), line, column };
        forms.push(Err(error()));
        return SourceScan { form_count: Err(error()), forms };
    }
    if let Some((byte_start, line, column)) = start {
        forms.push(Ok(FormSpan { byte_start, byte_end: text.len(), line, column }));
    }
    SourceScan { form_count: Ok(forms.len()), forms }
}

fn execute(mode: ExecMode, name: String, source: Bytes) -> Result<Exec, SourceValidationError> {
    let scanned = match std::str::from_utf8(&source) {
        Ok(text) => scan(text),
        Err(_) => scan(""),
    };
    Exec::new(mode, name, source, scanned)
}

fn collect(sink: &mut OutputSink) -> String {
    let mut output = String::new();
    loop {
        match sink.next_chunk() {
            ChunkPoll::Chunk(chunk) => output.push_str(&chunk),
            ChunkPoll::Pending | ChunkPoll::Ended => return output,
        }
    }
}

#[test]
fn diagnostic_composition_preserves_the_stored_byte_limit() {
    let mut message = bounded_diagnostic("é".repeat(MAX_DIAGNOSTIC_BYTES));
    append_diagnostic(&mut message, &"x".repeat(MAX_DIAGNOSTIC_BYTES));
    assert!(message.len() <= MAX_DIAGNOSTIC_BYTES);
    assert!(message.ends_with("... [truncated]"));
    assert!(std::str::from_utf8(message.as_bytes()).is_ok());
}

#[test]
fn explicit_native_truncation_is_preserved_without_padding() {
    let message = bounded_native_diagnostic("short".into(), true);

    assert_eq!(message, "short... [truncated]");
}

#[test]
fn tests_validates_source_before_native_admission() {
    assert!(
        execute(
            ExecMode::Exec,
            "<stdin>".into(),
            "x".repeat(MAX_EXECUTION_SOURCE_BYTES).into(),
        )
        .is_ok()
    );
    assert!(
        execute(
            ExecMode::Exec,
            "<stdin>".into(),
            format!(
                "\u{feff}{}",
                "x".repeat(MAX_EXECUTION_SOURCE_BYTES)
            )
            .into(),
        )
        .is_ok()
    );
    assert_eq!(
        execute(
            ExecMode::Exec,
            "<stdin>".into(),
            "x".repeat(MAX_EXECUTION_SOURCE_BYTES + 1)
                .into(),
        )
        .err()
        .unwrap(),
        SourceValidationError::SourceTooLarge
    );
    assert_eq!(
        execute(ExecMode::Exec, "<stdin>".into(), "x\0y".into())
            .err()
            .unwrap(),
        SourceValidationError::NullCharacter
    );
    assert_eq!(
        execute(
            ExecMode::Exec,
            "<stdin>".into(),
            Bytes::from_static(b"\xff"),
        )
        .err()
        .unwrap(),
        SourceValidationError::InvalidUtf8
    );
    assert!(matches!(
        execute(ExecMode::Exec, "<stdin>".into(), "(unfinished".into(),),
        Err(SourceValidationError::Scan(_))
    ));
}

#[test]
fn eval_requires_exactly_one_form_while_exec_accepts_a_batch() {
    assert_eq!(
        execute(ExecMode::Eval, "<stdin>".into(), "".into())
            .err()
            .unwrap(),
        SourceValidationError::ExpectedOneForm { actual: 0 }
    );
    assert_eq!(
        execute(ExecMode::Eval, "<stdin>".into(), "a b".into())
            .err()
            .unwrap(),
        SourceValidationError::ExpectedOneForm { actual: 2 }
    );
    assert!(execute(ExecMode::Eval, "<stdin>".into(), "a".into()).is_ok());
    assert!(execute(ExecMode::Exec, "<stdin>".into(), "a b".into()).is_ok());
}

#[test]
fn tests_yields_exact_forms_then_commits() {
    let mut execution = execute(
        ExecMode::Exec,
        "batch.lsp".into(),
        "(setq x 1) ; keep with separator\n(+ x 2)".into(),
    )
    .unwrap();

    assert_eq!(execution.take_step().kind(), ExecStepKind::BeginUndoGroup);
    assert!(execution.complete_step(success()));

    let first = execution.take_step();
    assert_eq!(first.kind(), ExecStepKind::EvaluateForm);
    assert_eq!(first.source(), "(setq x 1)");
    assert!(execution.complete_step(success()));

    let second = execution.take_step();
    assert_eq!(second.kind(), ExecStepKind::EvaluateForm);
    assert_eq!(second.source(), "(+ x 2)");
    assert!(execution.complete_step(success()));

    assert_eq!(execution.take_step().kind(), ExecStepKind::CommitUndoGroup);
    assert!(execution.complete_step(success()));
    assert_eq!(execution.take_step().kind(), ExecStepKind::Done);
    assert_eq!(execution.outcome(), Some(&ExecOutcome::Success));
}

#[test]
fn eval_retains_its_form_value_and_emits_it_only_after_commit() {
    let mut execution =
        execute(ExecMode::Eval, "inspect.lsp".into(), "(+ 1 2)".into()).unwrap();
    begin(&mut execution);

    let form = execution.take_step();
    assert_eq!(form.kind(), ExecStepKind::EvaluateForm);
    assert!(form.retain_value());
    assert!(execution.complete_step(success()));
    assert_eq!(execution.take_step().kind(), ExecStepKind::CommitUndoGroup);
    assert!(!execution.request_cancel());
    assert!(execution.complete_step(success()));

    assert_eq!(execution.take_step().kind(), ExecStepKind::EmitEvalValue);
    let lease = execution
        .acquire_eval_value_output()
        .expect("the post-commit value epoch is open");
    let mut port = NativeOutputPort::eval_value(lease, execution.io_mut());
    assert_eq!(
        port.write(execution.io_mut(), Ok(OutputEvent::BeginValue)),
        WriteResult::Continue
    );
    assert_eq!(
        port.write(execution.io_mut(), Ok(OutputEvent::Value(ValueEvent::Integer(3)))),
        WriteResult::Continue
    );
    assert_eq!(port.write(execution.io_mut(), Ok(OutputEvent::EndValue)), WriteResult::Continue);
    assert_eq!(port.finish(execution.io_mut()), WriteResult::Continue);
    assert!(execution.complete_step(success()));

    assert_eq!(execution.take_step().kind(), ExecStepKind::Done);
    assert_eq!(execution.outcome(), Some(&ExecOutcome::Success));
}

#[test]
fn exec_forms_never_request_value_retention() {
    let mut execution = execute(ExecMode::Exec, "batch.lsp".into(), "(+ 1 2)".into())
        .unwrap();
    begin(&mut execution);

    let form = execution.take_step();
    assert_eq!(form.kind(), ExecStepKind::EvaluateForm);
    assert!(!form.retain_value());
}

#[test]
fn a_private_output_protocol_violation_rolls_back_its_form() {
    let mut execution = execute(
        ExecMode::Exec,
        "batch.lsp".into(),
        "(actl:print value)".into(),
    )
    .unwrap();
    begin(&mut execution);
    assert_eq!(execution.take_step().kind(), ExecStepKind::EvaluateForm);

    let lease = execution
        .acquire_form_output()
        .expect("form output is open while AutoLISP runs");
    let mut port = NativeOutputPort::form(lease, execution.io_mut());
    assert_eq!(
        port.write(execution.io_mut(), Ok(OutputEvent::BeginValue)),
        WriteResult::Continue
    );
    assert_eq!(
        port.write(execution.io_mut(), Ok(OutputEvent::Value(ValueEvent::Integer(1)))),
        WriteResult::Continue
    );
    assert_eq!(
        port.write(execution.io_mut(), Ok(OutputEvent::Value(ValueEvent::Integer(2)))),
        WriteResult::Continue
    );
    assert_eq!(
        port.write(execution.io_mut(), Ok(OutputEvent::EndValue)),
        WriteResult::InvalidSequence
    );
    assert_eq!(port.finish(execution.io_mut()), WriteResult::InvalidSequence);

    assert!(execution.complete_step(success()));
    assert_eq!(
        execution.take_step().kind(),
        ExecStepKind::RollbackUndoGroup
    );
    assert!(execution.complete_step(success()));
    assert_eq!(execution.take_step().kind(), ExecStepKind::Done);

    let Some(ExecOutcome::Failure(failure)) = execution.outcome() else {
        panic!("expected explicit output failure");
    };
    assert_eq!(
        failure.message,
        "the AutoLISP output bridge emitted an invalid value sequence"
    );
    assert_eq!(failure.drawing_outcome, DrawingOutcome::RolledBack);
}

#[test]
fn a_missing_post_commit_output_port_is_a_committed_failure() {
    let mut execution = eval_through_commit();
    assert_eq!(execution.take_step().kind(), ExecStepKind::EmitEvalValue);
    assert!(execution.complete_step(success()));
    assert_eq!(execution.take_step().kind(), ExecStepKind::Done);

    assert_eq!(
        execution.outcome(),
        Some(&ExecOutcome::Failure(ExecFailure {
            message: "the AutoLISP evaluator did not emit its result value".into(),
            form_index: Some(1),
            location: Some(SourceLocation {
                source_name: "inspect.lsp".into(),
                line: 1,
                column: 1,
            }),
            drawing_outcome: DrawingOutcome::Committed,
            drawing_error: None,
        }))
    );
}

#[test]
fn a_post_commit_native_failure_never_requests_rollback() {
    let mut execution = eval_through_commit();
    assert_eq!(execution.take_step().kind(), ExecStepKind::EmitEvalValue);
    assert!(execution.complete_step(native_error("value emitter failed", -5001)));

    assert_eq!(execution.take_step().kind(), ExecStepKind::Done);
    let Some(ExecOutcome::Failure(failure)) = execution.outcome() else {
        panic!("expected committed serialization failure");
    };

    assert_eq!(failure.message, "value emitter failed");
    assert_eq!(failure.form_index, Some(1));
    assert_eq!(failure.drawing_outcome, DrawingOutcome::Committed);
}

#[test]
fn post_commit_failure_keeps_emitter_and_cleanup_evidence() {
    let mut execution = eval_through_commit();
    assert_eq!(execution.take_step().kind(), ExecStepKind::EmitEvalValue);
    assert!(execution.complete_step(with_cleanup(lisp_error("value emitter failed", 7), -5001,)));

    assert_eq!(execution.take_step().kind(), ExecStepKind::Done);
    let Some(ExecOutcome::Failure(failure)) = execution.outcome() else {
        panic!("expected committed serialization failure");
    };

    assert_eq!(
        failure.message,
        "value emitter failed; could not clear the reserved AutoLISP execution bridge symbols (native status -5001)"
    );
    assert_eq!(failure.drawing_outcome, DrawingOutcome::Committed);
}

#[test]
fn post_commit_bridge_failure_keeps_cleanup_evidence() {
    let mut execution = eval_through_commit();
    assert_eq!(execution.take_step().kind(), ExecStepKind::EmitEvalValue);
    assert!(execution.complete_step(with_cleanup(success(), -5001)));

    assert_eq!(execution.take_step().kind(), ExecStepKind::Done);
    let Some(ExecOutcome::Failure(failure)) = execution.outcome() else {
        panic!("expected committed serialization failure");
    };

    assert_eq!(
        failure.message,
        "the AutoLISP evaluator did not emit its result value; could not clear the reserved AutoLISP execution bridge symbols (native status -5001)"
    );
    assert_eq!(failure.drawing_outcome, DrawingOutcome::Committed);
}

#[test]
fn eval_cancellation_clears_the_retained_value_before_rollback() {
    let mut execution =
        execute(ExecMode::Eval, "inspect.lsp".into(), "form".into()).unwrap();
    begin(&mut execution);
    assert_eq!(execution.take_step().kind(), ExecStepKind::EvaluateForm);
    assert!(execution.request_cancel());
    assert!(execution.complete_step(success()));

    assert_eq!(
        execution.take_step().kind(),
        ExecStepKind::ClearRetainedEvalValue
    );
    assert!(execution.complete_step(success()));
    assert_eq!(
        execution.take_step().kind(),
        ExecStepKind::RollbackUndoGroup
    );
    assert!(execution.complete_step(success()));
    assert_eq!(execution.take_step().kind(), ExecStepKind::Done);
    assert_eq!(execution.outcome(), Some(&ExecOutcome::Cancelled));
}

#[test]
fn eval_value_cleanup_failure_is_preserved_when_rollback_succeeds() {
    let mut execution =
        execute(ExecMode::Eval, "inspect.lsp".into(), "form".into()).unwrap();
    begin(&mut execution);
    assert_eq!(execution.take_step().kind(), ExecStepKind::EvaluateForm);
    assert!(execution.request_cancel());
    assert!(execution.complete_step(success()));

    assert_eq!(
        execution.take_step().kind(),
        ExecStepKind::ClearRetainedEvalValue
    );
    assert!(execution.complete_step(native_error("value cleanup failed", -5001)));
    assert_eq!(
        execution.take_step().kind(),
        ExecStepKind::RollbackUndoGroup
    );
    assert!(execution.complete_step(success()));
    assert_eq!(execution.take_step().kind(), ExecStepKind::Done);

    let Some(ExecOutcome::Failure(failure)) = execution.outcome() else {
        panic!("expected cleanup failure");
    };

    assert_eq!(failure.message, "value cleanup failed");
    assert_eq!(failure.form_index, Some(1));
    assert_eq!(failure.drawing_outcome, DrawingOutcome::RolledBack);
}

#[test]
fn form_failure_keeps_lisp_and_cleanup_evidence() {
    let mut execution =
        execute(ExecMode::Eval, "inspect.lsp".into(), "form".into()).unwrap();
    begin(&mut execution);
    assert_eq!(execution.take_step().kind(), ExecStepKind::EvaluateForm);
    assert!(execution.complete_step(with_cleanup(lisp_error("bad argument type", 7), -5001,)));

    assert_eq!(
        execution.take_step().kind(),
        ExecStepKind::ClearRetainedEvalValue
    );
    assert!(execution.complete_step(success()));
    assert_eq!(
        execution.take_step().kind(),
        ExecStepKind::RollbackUndoGroup
    );
    assert!(execution.complete_step(success()));
    assert_eq!(execution.take_step().kind(), ExecStepKind::Done);

    let Some(ExecOutcome::Failure(failure)) = execution.outcome() else {
        panic!("expected evaluation failure");
    };

    assert_eq!(
        failure.message,
        "bad argument type; could not clear the reserved AutoLISP execution bridge symbols (native status -5001)"
    );
    assert_eq!(failure.drawing_outcome, DrawingOutcome::RolledBack);
}

#[test]
fn tests_rolls_back_a_lisp_failure_at_its_form_location() {
    let mut execution = execute(ExecMode::Exec, "batch.lsp".into(), "ok\n  bad".into())
        .unwrap();
    begin(&mut execution);
    assert_eq!(execution.take_step().source(), "ok");
    assert!(execution.complete_step(success()));
    assert_eq!(execution.take_step().source(), "bad");
    assert!(execution.complete_step(lisp_error("bad argument type", 7)));

    assert_eq!(
        execution.take_step().kind(),
        ExecStepKind::RollbackUndoGroup
    );
    assert!(execution.complete_step(success()));
    assert_eq!(execution.take_step().kind(), ExecStepKind::Done);
    assert_eq!(
        execution.outcome(),
        Some(&ExecOutcome::Failure(ExecFailure {
            message: "bad argument type".into(),
            form_index: Some(2),
            location: Some(SourceLocation {
                source_name: "batch.lsp".into(),
                line: 2,
                column: 3,
            }),
            drawing_outcome: DrawingOutcome::RolledBack,
            drawing_error: None,
        }))
    );
}

#[test]
fn tests_rollback_failure_preserves_the_original_error_and_marks_unknown() {
    let mut execution = execute(ExecMode::Exec, "batch.lsp".into(), "bad".into())
        .unwrap();
    begin(&mut execution);
    assert_eq!(execution.take_step().kind(), ExecStepKind::EvaluateForm);
    assert!(execution.complete_step(lisp_error("boom", 0)));
    assert_eq!(
        execution.take_step().kind(),
        ExecStepKind::RollbackUndoGroup
    );
    assert!(execution.complete_step(native_error("U failed", -5001)));
    assert_eq!(execution.take_step().kind(), ExecStepKind::Done);

    let Some(ExecOutcome::Failure(failure)) = execution.outcome() else {
        panic!("expected failure");
    };

    assert_eq!(failure.message, "boom; U failed");
    assert_eq!(failure.drawing_outcome, DrawingOutcome::Unknown);
}

#[test]
fn tests_commit_failure_is_rolled_back() {
    let mut execution = execute(ExecMode::Exec, "batch.lsp".into(), "ok".into())
        .unwrap();
    begin(&mut execution);
    assert_eq!(execution.take_step().kind(), ExecStepKind::EvaluateForm);
    assert!(execution.complete_step(success()));
    assert_eq!(execution.take_step().kind(), ExecStepKind::CommitUndoGroup);
    assert!(execution.complete_step(native_error("End failed", -5001)));
    assert_eq!(
        execution.take_step().kind(),
        ExecStepKind::RollbackUndoGroup
    );
    assert!(execution.complete_step(success()));
    assert_eq!(execution.take_step().kind(), ExecStepKind::Done);

    assert_eq!(
        execution.outcome(),
        Some(&ExecOutcome::Failure(ExecFailure {
            message: "End failed".into(),
            form_index: None,
            location: None,
            drawing_outcome: DrawingOutcome::RolledBack,
            drawing_error: None,
        }))
    );
}

#[test]
fn eval_commit_failure_clears_its_value_before_rollback() {
    let mut execution = execute(ExecMode::Eval, "inspect.lsp".into(), "ok".into())
        .unwrap();
    begin(&mut execution);
    assert_eq!(execution.take_step().kind(), ExecStepKind::EvaluateForm);
    assert!(execution.complete_step(success()));
    assert_eq!(execution.take_step().kind(), ExecStepKind::CommitUndoGroup);
    assert!(execution.complete_step(native_error("End failed", -5001)));

    assert_eq!(
        execution.take_step().kind(),
        ExecStepKind::ClearRetainedEvalValue
    );
    assert!(execution.complete_step(success()));
    assert_eq!(
        execution.take_step().kind(),
        ExecStepKind::RollbackUndoGroup
    );
    assert!(execution.complete_step(success()));
    assert_eq!(execution.take_step().kind(), ExecStepKind::Done);
    let Some(ExecOutcome::Failure(failure)) = execution.outcome() else {
        panic!("expected commit failure");
    };

    assert_eq!(failure.message, "End failed");
    assert_eq!(failure.drawing_outcome, DrawingOutcome::RolledBack);
}

#[test]
fn tests_begin_failure_never_claims_that_drawing_work_started() {
    let mut execution = execute(ExecMode::Exec, "batch.lsp".into(), "ok".into())
        .unwrap();
    assert_eq!(execution.take_step().kind(), ExecStepKind::BeginUndoGroup);
    assert!(execution.complete_step(native_error("Begin failed", -5001)));
    assert_eq!(execution.take_step().kind(), ExecStepKind::Done);

    assert_eq!(
        execution.outcome(),
        Some(&ExecOutcome::Failure(ExecFailure {
            message: "Begin failed".into(),
            form_index: None,
            location: None,
            drawing_outcome: DrawingOutcome::NotStarted,
            drawing_error: None,
        }))
    );
}

#[test]
fn tests_cleanup_failure_overrides_success_with_an_unknown_drawing_outcome() {
    let mut execution = successful_execution();
    assert!(execution.record_bridge_finalization_failure(native_error("unlock failed", 42)));
    assert_eq!(
        execution.outcome(),
        Some(&ExecOutcome::Failure(ExecFailure {
            message: "unlock failed".into(),
            form_index: None,
            location: None,
            drawing_outcome: DrawingOutcome::Unknown,
            drawing_error: None,
        }))
    );
}

#[test]
fn tests_cleanup_failure_preserves_an_existing_execution_failure() {
    let mut execution = execute(ExecMode::Exec, "batch.lsp".into(), "bad".into())
        .unwrap();
    begin(&mut execution);
    assert_eq!(execution.take_step().kind(), ExecStepKind::EvaluateForm);
    assert!(execution.complete_step(lisp_error("boom", 0)));
    assert_eq!(
        execution.take_step().kind(),
        ExecStepKind::RollbackUndoGroup
    );
    assert!(execution.complete_step(success()));
    assert_eq!(execution.take_step().kind(), ExecStepKind::Done);

    assert!(execution.record_bridge_finalization_failure(native_error("restore failed", 43)));
    let Some(ExecOutcome::Failure(failure)) = execution.outcome() else {
        panic!("expected failure");
    };

    assert_eq!(failure.message, "boom; restore failed");
    assert_eq!(failure.drawing_outcome, DrawingOutcome::Unknown);
}

#[test]
fn tests_abandonment_terminalizes_an_in_flight_form_as_unknown() {
    let mut execution = execute(
        ExecMode::Exec,
        "batch.lsp".into(),
        "ok\nchanged".into(),
    )
    .unwrap();
    begin(&mut execution);
    assert_eq!(execution.take_step().source(), "ok");
    assert!(execution.complete_step(success()));
    assert_eq!(execution.take_step().source(), "changed");

    assert!(execution.abandon(native_error(
        "the target database changed during execution",
        -5001,
    )));
    assert_eq!(execution.take_step().kind(), ExecStepKind::Done);
    assert_eq!(
        execution.outcome(),
        Some(&ExecOutcome::Failure(ExecFailure {
            message: "the target database changed during execution".into(),
            form_index: Some(2),
            location: Some(SourceLocation {
                source_name: "batch.lsp".into(),
                line: 2,
                column: 1,
            }),
            drawing_outcome: DrawingOutcome::Unknown,
            drawing_error: None,
        }))
    );
}

#[test]
fn tests_abandonment_preserves_the_failure_that_started_rollback() {
    let mut execution = execute(ExecMode::Exec, "batch.lsp".into(), "bad".into())
        .unwrap();
    begin(&mut execution);
    assert_eq!(execution.take_step().kind(), ExecStepKind::EvaluateForm);
    assert!(execution.complete_step(lisp_error("boom", 0)));
    assert_eq!(
        execution.take_step().kind(),
        ExecStepKind::RollbackUndoGroup
    );

    assert!(execution.abandon(native_error("database replaced", -5001)));
    assert_eq!(execution.take_step().kind(), ExecStepKind::Done);
    let Some(ExecOutcome::Failure(failure)) = execution.outcome() else {
        panic!("expected failure");
    };

    assert_eq!(failure.message, "boom; database replaced");
    assert_eq!(failure.drawing_outcome, DrawingOutcome::Unknown);
}

#[test]
fn cancellation_before_begin_never_opens_an_undo_group() {
    let mut execution =
        execute(ExecMode::Exec, "batch.lsp".into(), "form".into()).unwrap();

    assert!(execution.request_cancel());
    assert_eq!(execution.take_step().kind(), ExecStepKind::Done);
    assert_eq!(execution.outcome(), Some(&ExecOutcome::Cancelled));
}

#[test]
fn cancellation_during_begin_closes_the_empty_group_without_u() {
    let mut execution =
        execute(ExecMode::Exec, "batch.lsp".into(), "form".into()).unwrap();

    assert_eq!(execution.take_step().kind(), ExecStepKind::BeginUndoGroup);
    assert!(execution.request_cancel());
    assert!(execution.complete_step(success()));
    assert_eq!(
        execution.take_step().kind(),
        ExecStepKind::CloseEmptyUndoGroup
    );
    assert!(execution.complete_step(success()));
    assert_eq!(execution.take_step().kind(), ExecStepKind::Done);
    assert_eq!(execution.outcome(), Some(&ExecOutcome::Cancelled));
}

#[test]
fn cancellation_after_a_form_uses_rollback() {
    let mut execution =
        execute(ExecMode::Exec, "batch.lsp".into(), "form".into()).unwrap();
    begin(&mut execution);

    assert_eq!(execution.take_step().kind(), ExecStepKind::EvaluateForm);
    assert!(execution.request_cancel());
    assert!(execution.complete_step(success()));
    assert_eq!(
        execution.take_step().kind(),
        ExecStepKind::RollbackUndoGroup
    );
    assert!(execution.complete_step(success()));
    assert_eq!(execution.take_step().kind(), ExecStepKind::Done);
    assert_eq!(execution.outcome(), Some(&ExecOutcome::Cancelled));
}

#[test]
fn evaluator_failure_wins_over_concurrent_cancellation() {
    let mut execution =
        execute(ExecMode::Exec, "batch.lsp".into(), "bad".into()).unwrap();
    begin(&mut execution);

    assert_eq!(execution.take_step().kind(), ExecStepKind::EvaluateForm);
    assert!(execution.request_cancel());
    assert!(execution.complete_step(lisp_error("boom", 0)));
    assert_eq!(
        execution.take_step().kind(),
        ExecStepKind::RollbackUndoGroup
    );
    assert!(execution.complete_step(success()));
    assert_eq!(execution.take_step().kind(), ExecStepKind::Done);
    let Some(ExecOutcome::Failure(failure)) = execution.outcome() else {
        panic!("expected the evaluator failure");
    };

    assert_eq!(failure.message, "boom");
    assert_eq!(failure.drawing_outcome, DrawingOutcome::RolledBack);
}

#[test]
fn cancellation_after_commit_handoff_is_too_late() {
    let mut execution =
        execute(ExecMode::Exec, "batch.lsp".into(), "form".into()).unwrap();
    begin(&mut execution);
    assert_eq!(execution.take_step().kind(), ExecStepKind::EvaluateForm);
    assert!(execution.complete_step(success()));

    assert_eq!(execution.take_step().kind(), ExecStepKind::CommitUndoGroup);
    assert!(!execution.request_cancel());
    assert!(execution.complete_step(success()));
    assert_eq!(execution.take_step().kind(), ExecStepKind::Done);
    assert_eq!(execution.outcome(), Some(&ExecOutcome::Success));
}

#[test]
fn rollback_failure_overrides_cancellation() {
    let mut execution =
        execute(ExecMode::Exec, "batch.lsp".into(), "form".into()).unwrap();
    begin(&mut execution);
    assert_eq!(execution.take_step().kind(), ExecStepKind::EvaluateForm);
    assert!(execution.request_cancel());
    assert!(execution.complete_step(success()));
    assert_eq!(
        execution.take_step().kind(),
        ExecStepKind::RollbackUndoGroup
    );
    assert!(execution.complete_step(native_error("U failed", -5001)));
    assert_eq!(execution.take_step().kind(), ExecStepKind::Done);

    assert_eq!(
        execution.outcome(),
        Some(&ExecOutcome::Failure(ExecFailure {
            message: "U failed".into(),
            form_index: None,
            location: None,
            drawing_outcome: DrawingOutcome::Unknown,
            drawing_error: None,
        }))
    );
}

#[test]
fn tests_empty_batch_finishes_without_an_undo_group() {
    let mut execution = execute(
        ExecMode::Exec,
        "<stdin>".into(),
        "; only a comment".into(),
    )
    .unwrap();

    assert_eq!(execution.take_step().kind(), ExecStepKind::Done);
    assert_eq!(execution.outcome(), Some(&ExecOutcome::Success));
}

fn begin(execution: &mut Exec) {
    assert_eq!(execution.take_step().kind(), ExecStepKind::BeginUndoGroup);
    assert!(execution.complete_step(success()));
}

fn successful_execution() -> Exec {
    let mut execution = execute(ExecMode::Exec, "batch.lsp".into(), "ok".into())
        .unwrap();
    begin(&mut execution);
    assert_eq!(execution.take_step().kind(), ExecStepKind::EvaluateForm);
    assert!(execution.complete_step(success()));
    assert_eq!(execution.take_step().kind(), ExecStepKind::CommitUndoGroup);
    assert!(execution.complete_step(success()));
    assert_eq!(execution.take_step().kind(), ExecStepKind::Done);
    execution
}

fn eval_through_commit() -> Exec {
    let mut execution = execute(ExecMode::Eval, "inspect.lsp".into(), "(+ 1 2)".into())
        .unwrap();
    begin(&mut execution);
    assert_eq!(execution.take_step().kind(), ExecStepKind::EvaluateForm);
    assert!(execution.complete_step(success()));
    assert_eq!(execution.take_step().kind(), ExecStepKind::CommitUndoGroup);
    assert!(execution.complete_step(success()));
    execution
}

fn success() -> ExecStepResult {
    ExecStepResult {
        kind: ExecStepResultKind::Success,
        native_status: 0,
        lisp_errno: 0,
        detail: String::new(),
        bridge_symbols_clear_status: 0,
    }
}

fn lisp_error(detail: &str, lisp_errno: i32) -> ExecStepResult {
    ExecStepResult {
        kind: ExecStepResultKind::LispError,
        native_status: 0,
        lisp_errno,
        detail: detail.into(),
        bridge_symbols_clear_status: 0,
    }
}

fn native_error(detail: &str, native_status: i32) -> ExecStepResult {
    ExecStepResult {
        kind: ExecStepResultKind::NativeError,
        native_status,
        lisp_errno: 0,
        detail: detail.into(),
        bridge_symbols_clear_status: 0,
    }
}

fn with_cleanup(mut result: ExecStepResult, bridge_symbols_clear_status: i32) -> ExecStepResult {
    result.bridge_symbols_clear_status = bridge_symbols_clear_status;
    result
}


fn observation(status: LispStatus) -> LispObservation {
    LispObservation {
        command_status: 0,
        status,
        status_read_status: 0,
        errno: None,
        error: None,
        malformed_status: -5001,
    }
}

#[test]
fn true_is_the_only_status_that_retains_a_requested_value() {
    let success = interpret_lisp(observation(LispStatus::True), true);
    assert_eq!(success.result.kind, ExecStepResultKind::Success);
    assert!(success.retain_value);

    let malformed = interpret_lisp(observation(LispStatus::Other), true);
    assert_eq!(malformed.result.kind, ExecStepResultKind::NativeError);
    assert_eq!(malformed.result.native_status, -5001);
    assert!(!malformed.retain_value);
}

#[test]
fn nil_preserves_lisp_evidence_and_explicit_native_truncation() {
    let mut value = observation(LispStatus::Nil);
    value.errno = Some(7);
    value.error = Some(NativeDiagnostic {
        text: "é".repeat(MAX_DIAGNOSTIC_BYTES),
        truncated: true,
    });

    let plan = interpret_lisp(value, false);

    assert_eq!(plan.result.kind, ExecStepResultKind::LispError);
    assert_eq!(plan.result.lisp_errno, 7);
    assert!(plan.result.detail.ends_with("... [truncated]"));
    assert!(plan.result.detail.len() <= MAX_DIAGNOSTIC_BYTES);
}

#[test]
fn native_command_and_status_read_failures_win_before_lisp_fields() {
    let mut command = observation(LispStatus::Nil);
    command.command_status = -1;
    command.errno = Some(7);
    assert_eq!(interpret_lisp(command, false).result.native_status, -1);

    let mut unavailable = observation(LispStatus::Unavailable);
    unavailable.status_read_status = -2;
    assert_eq!(interpret_lisp(unavailable, false).result.native_status, -2);
}

#[test]
fn cleanup_failure_reports_the_first_status_and_retained_state() {
    let cleared = complete_cleanup(prepare_cleanup(success(), true), -1, 0);
    assert_eq!(cleared.result.bridge_symbols_clear_status, -1);
    assert!(!cleared.bridge_symbols_may_be_retained);

    let retained = complete_cleanup(prepare_cleanup(success(), false), -1, -2);
    assert_eq!(retained.result.bridge_symbols_clear_status, -1);
    assert!(retained.bridge_symbols_may_be_retained);
}

#[test]
fn renders_one_distinct_line() {
    let mut sink = channel();
    assert_eq!(label::write(&mut sink, "layers before"), WriteResult::Continue);
    sink.finish();
    assert_eq!(collect(&mut sink), "--- layers before ---\n");
}

#[test]
fn rejects_non_strings_multiline_text_and_oversized_text() {
    for text in ["two\nlines", ""] {
        let mut sink = channel();
        assert_eq!(label::write(&mut sink, text), WriteResult::InvalidSequence);
    }
    let mut sink = channel();
    assert_eq!(
        label::write(&mut sink, &"x".repeat(label::MAX_LABEL_BYTES + 1)),
        WriteResult::LimitExceeded
    );
}

#[test]
fn prints_the_string_and_a_newline() {
    let mut sink = channel();
    assert_eq!(lines::write(&mut sink, "layers before"), WriteResult::Continue);
    assert_eq!(lines::write(&mut sink, ""), WriteResult::Continue);
    sink.finish();
    assert_eq!(collect(&mut sink), "layers before\n\n");
}

#[test]
fn rejects_control_characters_and_oversized_text() {
    let mut sink = channel();
    assert_eq!(lines::write(&mut sink, "two\nlines"), WriteResult::InvalidSequence);
    let mut sink = channel();
    assert_eq!(
        lines::write(&mut sink, &"x".repeat(lines::MAX_PRINTLN_BYTES + 1)),
        WriteResult::LimitExceeded
    );
}
