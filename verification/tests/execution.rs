use acadctl_plugin::exec::outcome::SourceLocation;
use acadctl_plugin::exec::source::{FormSpan, ScanError, SourceScan};
use acadctl_plugin::execution::{
    DrawingOutcome, Execution, Failure, Outcome, StepKind, StepResult, StepResultKind,
    ValidationError,
};
use acadctl_plugin::limits::MAX_EXECUTION_SOURCE_BYTES;

/// A small form scanner: atoms, strings, comments and lists.
fn scan(source: &str) -> SourceScan {
    let text = source.strip_prefix('\u{feff}').unwrap_or(source);
    let mut forms: Vec<Result<FormSpan, ScanError>> = Vec::new();
    let mut depth = 0usize;
    let mut start: Option<(usize, usize, usize)> = None;
    let (mut line, mut column) = (1usize, 1usize);
    let (mut in_comment, mut in_text) = (false, false);
    for (offset, ch) in text.char_indices() {
        let delimiter = ch.is_whitespace() || ch == ';' || ch == '(' || ch == ')';
        if in_comment {
            in_comment = ch != '\n';
        } else if in_text {
            in_text = ch != '"';
        } else {
            if depth == 0 && delimiter {
                if let Some((byte_start, line, column)) = start.take() {
                    forms.push(Ok(FormSpan { byte_start, byte_end: offset, line, column }));
                }
            }
            if ch == ';' {
                in_comment = true;
            } else if !ch.is_whitespace() {
                if start.is_none() {
                    start = Some((offset, line, column));
                }
                in_text = ch == '"';
                if ch == '(' {
                    depth += 1;
                } else if ch == ')' {
                    depth -= 1;
                    if depth == 0 {
                        let (byte_start, line, column) = start.take().unwrap();
                        forms.push(Ok(FormSpan { byte_start, byte_end: offset + 1, line, column }));
                    }
                }
            }
        }
        if ch == '\n' {
            line += 1;
            column = 1;
        } else {
            column += 1;
        }
    }
    if depth > 0 || in_text {
        let error = || ScanError { message: "the list is not closed".into(), line, column };
        forms.push(Err(error()));
        return SourceScan { form_count: Err(error()), forms };
    }
    if let Some((byte_start, line, column)) = start {
        forms.push(Ok(FormSpan { byte_start, byte_end: text.len(), line, column }));
    }
    SourceScan { form_count: Ok(forms.len()), forms }
}

fn execute(name: String, source: String) -> Result<Execution, ValidationError> {
    let scanned = scan(&source);
    Execution::new(name, source, scanned)
}


#[test]
fn mod_validates_source_before_native_admission() {
    assert!(execute("<stdin>".into(), "x".repeat(MAX_EXECUTION_SOURCE_BYTES)).is_ok());
    assert!(
        execute(
            "<stdin>".into(),
            format!("\u{feff}{}", "x".repeat(MAX_EXECUTION_SOURCE_BYTES)),
        )
        .is_ok()
    );
    assert_eq!(
        execute("<stdin>".into(), "x".repeat(MAX_EXECUTION_SOURCE_BYTES + 1))
            .err()
            .unwrap(),
        ValidationError::SourceTooLarge
    );
    assert_eq!(
        execute("<stdin>".into(), "x\0y".into())
            .err()
            .unwrap(),
        ValidationError::NullCharacter
    );
    assert!(matches!(
        execute("<stdin>".into(), "(unfinished".into()),
        Err(ValidationError::Scan(_))
    ));
}

#[test]
fn mod_yields_exact_forms_then_commits() {
    let mut execution = execute(
        "batch.lsp".into(),
        "(setq x 1) ; keep with separator\n(+ x 2)".into(),
    )
    .unwrap();

    assert_eq!(execution.take_step().kind(), StepKind::Begin);
    assert!(execution.complete_step(success()));

    let first = execution.take_step();
    assert_eq!(first.kind(), StepKind::Form);
    assert_eq!(first.source(), "(setq x 1)");
    assert!(execution.complete_step(success()));

    let second = execution.take_step();
    assert_eq!(second.kind(), StepKind::Form);
    assert_eq!(second.source(), "(+ x 2)");
    assert!(execution.complete_step(success()));

    assert_eq!(execution.take_step().kind(), StepKind::Commit);
    assert!(execution.complete_step(success()));
    assert_eq!(execution.take_step().kind(), StepKind::Done);
    assert_eq!(execution.outcome(), Some(&Outcome::Success));
}

#[test]
fn mod_rolls_back_a_lisp_failure_at_its_form_location() {
    let mut execution = execute("batch.lsp".into(), "ok\n  bad".into()).unwrap();
    begin(&mut execution);
    assert_eq!(execution.take_step().source(), "ok");
    assert!(execution.complete_step(success()));
    assert_eq!(execution.take_step().source(), "bad");
    assert!(execution.complete_step(lisp_error("bad argument type", 7)));

    assert_eq!(execution.take_step().kind(), StepKind::Rollback);
    assert!(execution.complete_step(success()));
    assert_eq!(execution.take_step().kind(), StepKind::Done);
    assert_eq!(
        execution.outcome(),
        Some(&Outcome::Failure(Failure {
            message: "bad argument type".into(),
            form_index: Some(2),
            location: Some(SourceLocation {
                source_name: "batch.lsp".into(),
                line: 2,
                column: 3,
            }),
            drawing_outcome: DrawingOutcome::RolledBack,
        }))
    );
}

#[test]
fn mod_rollback_failure_preserves_the_original_error_and_marks_unknown() {
    let mut execution = execute("batch.lsp".into(), "bad".into()).unwrap();
    begin(&mut execution);
    assert_eq!(execution.take_step().kind(), StepKind::Form);
    assert!(execution.complete_step(lisp_error("boom", 0)));
    assert_eq!(execution.take_step().kind(), StepKind::Rollback);
    assert!(execution.complete_step(native_error("U failed", -5001)));
    assert_eq!(execution.take_step().kind(), StepKind::Done);

    let Some(Outcome::Failure(failure)) = execution.outcome() else {
        panic!("expected failure");
    };
    assert_eq!(failure.message, "boom; U failed");
    assert_eq!(failure.drawing_outcome, DrawingOutcome::Unknown);
}

#[test]
fn mod_commit_failure_is_rolled_back() {
    let mut execution = execute("batch.lsp".into(), "ok".into()).unwrap();
    begin(&mut execution);
    assert_eq!(execution.take_step().kind(), StepKind::Form);
    assert!(execution.complete_step(success()));
    assert_eq!(execution.take_step().kind(), StepKind::Commit);
    assert!(execution.complete_step(native_error("End failed", -5001)));
    assert_eq!(execution.take_step().kind(), StepKind::Rollback);
    assert!(execution.complete_step(success()));
    assert_eq!(execution.take_step().kind(), StepKind::Done);

    assert_eq!(
        execution.outcome(),
        Some(&Outcome::Failure(Failure {
            message: "End failed".into(),
            form_index: None,
            location: None,
            drawing_outcome: DrawingOutcome::RolledBack,
        }))
    );
}

#[test]
fn mod_begin_failure_never_claims_that_drawing_work_started() {
    let mut execution = execute("batch.lsp".into(), "ok".into()).unwrap();
    assert_eq!(execution.take_step().kind(), StepKind::Begin);
    assert!(execution.complete_step(native_error("Begin failed", -5001)));
    assert_eq!(execution.take_step().kind(), StepKind::Done);

    assert_eq!(
        execution.outcome(),
        Some(&Outcome::Failure(Failure {
            message: "Begin failed".into(),
            form_index: None,
            location: None,
            drawing_outcome: DrawingOutcome::NotStarted,
        }))
    );
}

#[test]
fn mod_cleanup_failure_overrides_success_with_an_unknown_drawing_outcome() {
    let mut execution = successful_execution();
    assert!(execution.record_terminal_failure(native_error("unlock failed", 42)));
    assert_eq!(
        execution.outcome(),
        Some(&Outcome::Failure(Failure {
            message: "unlock failed".into(),
            form_index: None,
            location: None,
            drawing_outcome: DrawingOutcome::Unknown,
        }))
    );
}

#[test]
fn mod_cleanup_failure_preserves_an_existing_execution_failure() {
    let mut execution = execute("batch.lsp".into(), "bad".into()).unwrap();
    begin(&mut execution);
    assert_eq!(execution.take_step().kind(), StepKind::Form);
    assert!(execution.complete_step(lisp_error("boom", 0)));
    assert_eq!(execution.take_step().kind(), StepKind::Rollback);
    assert!(execution.complete_step(success()));
    assert_eq!(execution.take_step().kind(), StepKind::Done);

    assert!(execution.record_terminal_failure(native_error("restore failed", 43)));
    let Some(Outcome::Failure(failure)) = execution.outcome() else {
        panic!("expected failure");
    };
    assert_eq!(failure.message, "boom; restore failed");
    assert_eq!(failure.drawing_outcome, DrawingOutcome::Unknown);
}

#[test]
fn mod_abandonment_terminalizes_an_in_flight_form_as_unknown() {
    let mut execution = execute("batch.lsp".into(), "ok\nchanged".into()).unwrap();
    begin(&mut execution);
    assert_eq!(execution.take_step().source(), "ok");
    assert!(execution.complete_step(success()));
    assert_eq!(execution.take_step().source(), "changed");

    assert!(execution.abandon(native_error(
        "the target database changed during execution",
        -5001,
    )));
    assert_eq!(execution.take_step().kind(), StepKind::Done);
    assert_eq!(
        execution.outcome(),
        Some(&Outcome::Failure(Failure {
            message: "the target database changed during execution".into(),
            form_index: Some(2),
            location: Some(SourceLocation {
                source_name: "batch.lsp".into(),
                line: 2,
                column: 1,
            }),
            drawing_outcome: DrawingOutcome::Unknown,
        }))
    );
}

#[test]
fn mod_abandonment_preserves_the_failure_that_started_rollback() {
    let mut execution = execute("batch.lsp".into(), "bad".into()).unwrap();
    begin(&mut execution);
    assert_eq!(execution.take_step().kind(), StepKind::Form);
    assert!(execution.complete_step(lisp_error("boom", 0)));
    assert_eq!(execution.take_step().kind(), StepKind::Rollback);

    assert!(execution.abandon(native_error("database replaced", -5001)));
    assert_eq!(execution.take_step().kind(), StepKind::Done);
    let Some(Outcome::Failure(failure)) = execution.outcome() else {
        panic!("expected failure");
    };
    assert_eq!(failure.message, "boom; database replaced");
    assert_eq!(failure.drawing_outcome, DrawingOutcome::Unknown);
}

#[test]
fn mod_empty_batch_finishes_without_an_undo_group() {
    let mut execution = execute("<stdin>".into(), "; only a comment".into()).unwrap();

    assert_eq!(execution.take_step().kind(), StepKind::Done);
    assert_eq!(execution.outcome(), Some(&Outcome::Success));
}

fn begin(execution: &mut Execution) {
    assert_eq!(execution.take_step().kind(), StepKind::Begin);
    assert!(execution.complete_step(success()));
}

fn successful_execution() -> Execution {
    let mut execution = execute("batch.lsp".into(), "ok".into()).unwrap();
    begin(&mut execution);
    assert_eq!(execution.take_step().kind(), StepKind::Form);
    assert!(execution.complete_step(success()));
    assert_eq!(execution.take_step().kind(), StepKind::Commit);
    assert!(execution.complete_step(success()));
    assert_eq!(execution.take_step().kind(), StepKind::Done);
    execution
}

fn success() -> StepResult {
    StepResult {
        kind: StepResultKind::Success,
        native_status: 0,
        lisp_errno: 0,
        detail: String::new(),
    }
}

fn lisp_error(detail: &str, lisp_errno: i32) -> StepResult {
    StepResult {
        kind: StepResultKind::LispError,
        native_status: 0,
        lisp_errno,
        detail: detail.into(),
    }
}

fn native_error(detail: &str, native_status: i32) -> StepResult {
    StepResult {
        kind: StepResultKind::NativeError,
        native_status,
        lisp_errno: 0,
        detail: detail.into(),
    }
}