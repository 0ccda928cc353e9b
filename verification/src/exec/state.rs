//! The course of one execution.
//!
//! An execution hands out native steps one at a time and is told how each went:
//! it opens an undo group, evaluates the forms of its source, and commits the
//! group. A failure or a cancellation unwinds the group instead.
use bytes::Bytes;
use vstd::prelude::*;
use vstd::string::*;
use vstd::utf8::*;

use super::diagnostic;
use super::diagnostic::{append_diagnostic, bounded_diagnostic};
use super::io::{
    ExecIo, ValueBridgeFailure, ValueBridgeState, ValueOutputKind, ValueOutputLease,
};
use super::lisp::StepResultView;
use super::outcome;
use super::outcome::{
    duplicate_location, DrawingOutcome, ExecFailure, ExecMode, ExecOutcome, FailureView,
    LocationView, OutcomeView, SourceLocation, SourceValidationError,
};
use super::source;
use super::source::{
    bytes_clone, bytes_from, bytes_slice, utf8_text, FormSpan, ScanError, SourceScan,
};
use super::{ExecStepKind, ExecStepResult, ExecStepResultKind};
use crate::execution::output::{channel, OutputSink, OutputView};
use crate::limits::MAX_EXECUTION_SOURCE_BYTES;
use crate::text;
use crate::text::push_signed_decimal;

verus! {

/// Where an execution stands.
#[derive(Clone, Copy, Debug, PartialEq, Eq, Structural)]
pub enum Phase {
    BeginUndoGroup,
    AwaitingBeginUndoGroup,
    BetweenForms,
    AwaitingEvaluateForm { index: usize, line: usize, column: usize },
    AwaitingCommitUndoGroup,
    EmitEvalValue,
    AwaitingEmitEvalValue,
    ClearRetainedEvalValue,
    AwaitingClearRetainedEvalValue,
    CloseEmptyUndoGroup,
    AwaitingCloseEmptyUndoGroup,
    RollbackUndoGroup,
    AwaitingRollbackUndoGroup,
    Terminal,
    Done,
}

enum UnwindCause {
    Failure(ExecFailure),
    Cancelled,
}

/// Why the undo group is unwound.
#[verifier::ext_equal]
pub enum CauseView {
    Failure(FailureView),
    Cancelled,
}

pub struct Exec {
    mode: ExecMode,
    source_name: String,
    source: Bytes,
    forms: Vec<Result<FormSpan, ScanError>>,
    next_form: usize,
    phase: Phase,
    form_handed_off: bool,
    value_retained: bool,
    eval_location: Option<SourceLocation>,
    cancel_requested: bool,
    unwind: Option<UnwindCause>,
    outcome: Option<ExecOutcome>,
    io: ExecIo,
}

/// The state of an execution.
#[verifier::ext_equal]
pub struct ExecView {
    pub mode: ExecMode,
    pub source_name: Seq<char>,
    pub source: Seq<u8>,
    pub forms: Seq<Result<FormSpan, ScanError>>,
    pub next_form: int,
    pub phase: Phase,
    pub form_handed_off: bool,
    pub value_retained: bool,
    pub eval_location: Option<LocationView>,
    pub cancel_requested: bool,
    pub unwind: Option<CauseView>,
    pub outcome: Option<OutcomeView>,
    pub bridge: ValueBridgeState,
    pub output: OutputView,
}

/// One step for the native side.
pub struct NativeExecStep {
    kind: ExecStepKind,
    source: Option<Bytes>,
    span: Option<FormSpan>,
    retain_value: bool,
}

#[verifier::ext_equal]
pub struct StepView {
    pub kind: ExecStepKind,
    pub source: Seq<char>,
    pub retain_value: bool,
}

impl View for UnwindCause {
    type V = CauseView;

    closed spec fn view(&self) -> CauseView {
        match self {
            UnwindCause::Failure(failure) => CauseView::Failure(failure@),
            UnwindCause::Cancelled => CauseView::Cancelled,
        }
    }
}

spec fn cause_view(cause: Option<UnwindCause>) -> Option<CauseView> {
    match cause {
        Some(cause) => Some(cause@),
        None => None,
    }
}

impl View for Exec {
    type V = ExecView;

    closed spec fn view(&self) -> ExecView {
        ExecView {
            mode: self.mode,
            source_name: self.source_name@,
            source: source::bytes_contents(self.source),
            forms: self.forms@,
            next_form: self.next_form as int,
            phase: self.phase,
            form_handed_off: self.form_handed_off,
            value_retained: self.value_retained,
            eval_location: outcome::location_view(self.eval_location),
            cancel_requested: self.cancel_requested,
            unwind: cause_view(self.unwind),
            outcome: outcome::outcome_view(self.outcome),
            bridge: self.io.bridge,
            output: self.io.output@,
        }
    }
}

impl View for NativeExecStep {
    type V = StepView;

    closed spec fn view(&self) -> StepView {
        StepView {
            kind: self.kind,
            source: match (self.source, self.span) {
                (Some(bytes), Some(span)) => span_text(source::bytes_contents(bytes), span),
                _ => Seq::empty(),
            },
            retain_value: self.retain_value,
        }
    }
}

/// The text of a form.
pub open spec fn span_text(source: Seq<u8>, span: FormSpan) -> Seq<char> {
    decode_utf8(source.subrange(span.byte_start as int, span.byte_end as int))
}

/// The source without a leading byte-order mark.
pub open spec fn without_mark(source: Seq<u8>) -> Seq<u8> {
    if source.len() >= 3 && source[0] == 0xef && source[1] == 0xbb && source[2] == 0xbf {
        source.skip(3)
    } else {
        source
    }
}

/// Why the bytes of a source are refused, before its forms are looked at.
pub open spec fn source_fault(source: Seq<u8>) -> Option<SourceValidationError> {
    let stripped = without_mark(source);
    if stripped.len() > MAX_EXECUTION_SOURCE_BYTES {
        Some(SourceValidationError::SourceTooLarge)
    } else if !valid_utf8(stripped) {
        Some(SourceValidationError::InvalidUtf8)
    } else if decode_utf8(stripped).contains('\0') {
        Some(SourceValidationError::NullCharacter)
    } else {
        None
    }
}

/// Why a source is refused: its bytes first, then what the scanner said.
pub open spec fn validation_fault(
    mode: ExecMode,
    source: Seq<u8>,
    form_count: Result<usize, ScanError>,
) -> Option<SourceValidationError> {
    match source_fault(source) {
        Some(error) => Some(error),
        None => match form_count {
            Err(error) => Some(SourceValidationError::Scan(error)),
            Ok(actual) => if mode is Eval && actual != 1 {
                Some(SourceValidationError::ExpectedOneForm { actual })
            } else {
                None
            },
        },
    }
}

impl StepResultView {
    /// The step did what it should and left nothing behind.
    pub open spec fn succeeded(self) -> bool {
        self.kind is Success && self.bridge_symbols_clear_status == 0
    }

    pub open spec fn primary_failed(self) -> bool {
        !(self.kind is Success)
    }

    /// What to say of reserved symbols that could not be cleared.
    pub open spec fn cleanup_text(self) -> Option<Seq<char>> {
        if self.bridge_symbols_clear_status != 0 {
            Some(
                "could not clear the reserved AutoLISP execution bridge symbols (native status "@
                    + text::signed_decimal(self.bridge_symbols_clear_status as int) + ")"@,
            )
        } else {
            None
        }
    }

    /// What to say of the step itself: its own detail where it has one.
    pub open spec fn primary_text(self, fallback: Seq<char>) -> Option<Seq<char>> {
        if self.kind is Success {
            None
        } else if self.detail.len() > 0 {
            Some(self.detail)
        } else if self.kind is LispError && self.lisp_errno != 0 {
            Some(fallback + " (ERRNO "@ + text::signed_decimal(self.lisp_errno as int) + ")"@)
        } else if self.native_status != 0 {
            Some(
                fallback + " (native status "@ + text::signed_decimal(self.native_status as int)
                    + ")"@,
            )
        } else {
            Some(fallback)
        }
    }

    /// The diagnostic of a step.
    pub open spec fn message(self, fallback: Seq<char>) -> Seq<char> {
        diagnostic::bounded_text(
            match (self.primary_text(fallback), self.cleanup_text()) {
                (Some(primary), Some(cleanup)) => primary + "; "@ + cleanup,
                (Some(primary), None) => primary,
                (None, Some(cleanup)) => cleanup,
                (None, None) => fallback,
            },
            false,
        )
    }

    /// The diagnostic of a failed bridge, with what could not be cleared.
    pub open spec fn bridge_message(self, failure: ValueBridgeFailure) -> Seq<char> {
        match self.cleanup_text() {
            Some(cleanup) => diagnostic::appended_text(failure.text(), cleanup),
            None => failure.text(),
        }
    }
}

impl Phase {
    /// A step has been handed out and its result is awaited.
    pub open spec fn awaiting(self) -> bool {
        ||| self is AwaitingBeginUndoGroup
        ||| self is AwaitingEvaluateForm
        ||| self is AwaitingCommitUndoGroup
        ||| self is AwaitingEmitEvalValue
        ||| self is AwaitingClearRetainedEvalValue
        ||| self is AwaitingCloseEmptyUndoGroup
        ||| self is AwaitingRollbackUndoGroup
    }

    /// The undo group is being unwound.
    pub open spec fn unwinding(self) -> bool {
        ||| self is ClearRetainedEvalValue
        ||| self is AwaitingClearRetainedEvalValue
        ||| self is CloseEmptyUndoGroup
        ||| self is AwaitingCloseEmptyUndoGroup
        ||| self is RollbackUndoGroup
        ||| self is AwaitingRollbackUndoGroup
    }

    /// No form can have been handed out yet.
    pub open spec fn before_forms(self) -> bool {
        ||| self is BeginUndoGroup
        ||| self is AwaitingBeginUndoGroup
        ||| self is CloseEmptyUndoGroup
        ||| self is AwaitingCloseEmptyUndoGroup
    }

    /// The commit has been handed out, or the end is certain otherwise.
    pub open spec fn past_cancellation(self) -> bool {
        ||| self is AwaitingCommitUndoGroup
        ||| self is EmitEvalValue
        ||| self is AwaitingEmitEvalValue
        ||| self is Terminal
        ||| self is Done
        ||| self.unwinding()
    }

    /// The undo group is committed or nothing is left to do.
    pub open spec fn settled(self) -> bool {
        ||| self is EmitEvalValue
        ||| self is AwaitingEmitEvalValue
        ||| self is Terminal
        ||| self is Done
    }

    /// An undo group is open that has to be committed, closed or rolled back.
    pub open spec fn group_open(self) -> bool {
        ||| self is BetweenForms
        ||| self is AwaitingEvaluateForm
        ||| self is AwaitingCommitUndoGroup
        ||| self.unwinding()
    }

    /// How far a phase is from the end, where no more forms are handed out.
    pub open spec fn distance(self) -> int {
        match self {
            Phase::BeginUndoGroup => 12,
            Phase::AwaitingBeginUndoGroup => 11,
            Phase::AwaitingEvaluateForm { .. } => 10,
            Phase::BetweenForms => 9,
            Phase::AwaitingCommitUndoGroup => 8,
            Phase::ClearRetainedEvalValue => 7,
            Phase::AwaitingClearRetainedEvalValue => 6,
            Phase::RollbackUndoGroup => 5,
            Phase::AwaitingRollbackUndoGroup => 4,
            Phase::EmitEvalValue => 3,
            Phase::AwaitingEmitEvalValue => 2,
            Phase::CloseEmptyUndoGroup => 3,
            Phase::AwaitingCloseEmptyUndoGroup => 2,
            Phase::Terminal => 1,
            Phase::Done => 0,
        }
    }
}

impl ExecView {
    /// A new execution of a source with `form_count` forms.
    pub open spec fn fresh(
        mode: ExecMode,
        source_name: Seq<char>,
        source: Seq<u8>,
        forms: Seq<Result<FormSpan, ScanError>>,
        form_count: usize,
    ) -> ExecView {
        let empty = form_count == 0;
        ExecView {
            mode,
            source_name,
            source,
            forms,
            next_form: 0,
            phase: if empty {
                Phase::Terminal
            } else {
                Phase::BeginUndoGroup
            },
            form_handed_off: false,
            value_retained: false,
            eval_location: None,
            cancel_requested: false,
            unwind: None,
            outcome: if empty {
                Some(OutcomeView::Success)
            } else {
                None
            },
            bridge: ValueBridgeState::closed(),
            output: OutputView { finished: empty, ..OutputView::empty() },
        }
    }

    /// What holds of every execution.
    pub open spec fn consistent(self) -> bool {
        &&& 0 <= self.next_form <= self.forms.len()
        &&& valid_utf8(self.source)
        &&& forall|i: int|
            0 <= i < self.forms.len() ==> (#[trigger] self.forms[i] matches Ok(span) ==> span.fits(
                self.source,
            ))
        // an outcome ends the execution
        &&& self.outcome is Some ==> self.phase is Terminal || self.phase is Done
        // unwinding has a cause, and a cause leads to unwinding
        &&& self.phase.unwinding() ==> self.unwind is Some
        &&& self.unwind is Some ==> self.phase.unwinding() || self.phase is AwaitingBeginUndoGroup
        &&& self.phase.before_forms() ==> !self.form_handed_off
        &&& self.phase is AwaitingEvaluateForm ==> self.form_handed_off
        // work that did not start is never claimed of an execution that handed out a form
        &&& (self.outcome matches Some(OutcomeView::Failure(failure))
            && failure.drawing_outcome is NotStarted) ==> !self.form_handed_off
        &&& (self.unwind matches Some(CauseView::Failure(failure))
            && failure.drawing_outcome is NotStarted) ==> !self.form_handed_off
        &&& self.value_retained ==> self.mode is Eval && self.form_handed_off
    }

    pub open spec fn location(self, line: usize, column: usize) -> LocationView {
        LocationView { source_name: self.source_name, line, column }
    }

    /// What the scanner yields next.
    pub open spec fn next_item(self) -> Option<Result<FormSpan, ScanError>> {
        if self.next_form < self.forms.len() {
            Some(self.forms[self.next_form])
        } else {
            None
        }
    }

    pub open spec fn ended(self, outcome: OutcomeView) -> ExecView {
        ExecView { outcome: Some(outcome), phase: Phase::Terminal, ..self }
    }

    /// The undo group is to be rolled back; a value that an evaluation may have
    /// retained is cleared first.
    pub open spec fn unwound(self, cause: CauseView) -> ExecView {
        ExecView {
            unwind: Some(cause),
            phase: if self.mode is Eval && self.form_handed_off {
                Phase::ClearRetainedEvalValue
            } else {
                Phase::RollbackUndoGroup
            },
            ..self
        }
    }

    /// The undo group is to be closed, since nothing was evaluated in it.
    pub open spec fn closing(self, cause: CauseView) -> ExecView {
        ExecView { unwind: Some(cause), phase: Phase::CloseEmptyUndoGroup, ..self }
    }

    pub open spec fn eval_failure(
        self,
        message: Seq<char>,
        drawing_outcome: DrawingOutcome,
    ) -> FailureView {
        FailureView {
            message: diagnostic::bounded_text(message, false),
            form_index: Some(1),
            location: self.eval_location,
            drawing_outcome,
            drawing_error: None,
        }
    }

    /// A requested cancellation or a scanner error takes effect where a step
    /// would begin.
    pub open spec fn resolved(self) -> ExecView {
        if self.phase is BeginUndoGroup && self.cancel_requested {
            self.ended(OutcomeView::Cancelled)
        } else if self.phase is BetweenForms && self.cancel_requested {
            if self.form_handed_off {
                self.unwound(CauseView::Cancelled)
            } else {
                self.closing(CauseView::Cancelled)
            }
        } else if self.phase is BetweenForms {
            match self.next_item() {
                Some(Err(error)) => self.unwound(
                    CauseView::Failure(
                        FailureView {
                            message: error.message@,
                            form_index: None,
                            location: Some(self.location(error.line, error.column)),
                            drawing_outcome: DrawingOutcome::Unknown,
                            drawing_error: None,
                        },
                    ),
                ),
                _ => self,
            }
        } else {
            self
        }
    }

    /// The step that a resolved execution hands out.
    pub open spec fn step(self) -> StepView {
        let kind = match self.phase {
            Phase::BeginUndoGroup => ExecStepKind::BeginUndoGroup,
            Phase::BetweenForms => if self.next_item() is Some {
                ExecStepKind::EvaluateForm
            } else {
                ExecStepKind::CommitUndoGroup
            },
            Phase::EmitEvalValue => ExecStepKind::EmitEvalValue,
            Phase::ClearRetainedEvalValue => ExecStepKind::ClearRetainedEvalValue,
            Phase::CloseEmptyUndoGroup => ExecStepKind::CloseEmptyUndoGroup,
            Phase::RollbackUndoGroup => ExecStepKind::RollbackUndoGroup,
            Phase::Terminal => ExecStepKind::Done,
            _ => ExecStepKind::Invalid,
        };
        StepView {
            kind,
            source: match self.next_item() {
                Some(Ok(span)) => if kind is EvaluateForm {
                    span_text(self.source, span)
                } else {
                    Seq::empty()
                },
                _ => Seq::empty(),
            },
            retain_value: kind is EvaluateForm && self.mode is Eval,
        }
    }

    /// A resolved execution after it has handed out its step.
    pub open spec fn handed_out(self) -> ExecView {
        match self.phase {
            Phase::BeginUndoGroup => ExecView { phase: Phase::AwaitingBeginUndoGroup, ..self },
            Phase::BetweenForms => match self.next_item() {
                Some(Ok(span)) => ExecView {
                    next_form: self.next_form + 1,
                    phase: Phase::AwaitingEvaluateForm {
                        index: (self.next_form + 1) as usize,
                        line: span.line,
                        column: span.column,
                    },
                    eval_location: if self.mode is Eval {
                        Some(self.location(span.line, span.column))
                    } else {
                        self.eval_location
                    },
                    form_handed_off: true,
                    bridge: self.bridge.begun(ValueOutputKind::Form),
                    ..self
                },
                _ => ExecView { phase: Phase::AwaitingCommitUndoGroup, ..self },
            },
            Phase::EmitEvalValue => ExecView {
                phase: Phase::AwaitingEmitEvalValue,
                bridge: self.bridge.begun(ValueOutputKind::EvalValue),
                ..self
            },
            Phase::ClearRetainedEvalValue => ExecView {
                phase: Phase::AwaitingClearRetainedEvalValue,
                ..self
            },
            Phase::CloseEmptyUndoGroup => ExecView {
                phase: Phase::AwaitingCloseEmptyUndoGroup,
                ..self
            },
            Phase::RollbackUndoGroup => ExecView {
                phase: Phase::AwaitingRollbackUndoGroup,
                ..self
            },
            Phase::Terminal => ExecView { phase: Phase::Done, ..self },
            _ => self,
        }
    }

    /// After a step was taken.
    pub open spec fn stepped(self) -> ExecView {
        self.resolved().handed_out()
    }

    /// The undo group was opened, or not.
    pub open spec fn begin_completed(self, result: StepResultView) -> ExecView {
        let message = result.message("could not begin the undo group"@);
        if result.succeeded() {
            match self.unwind {
                Some(_) => ExecView { phase: Phase::CloseEmptyUndoGroup, ..self },
                None => if self.cancel_requested {
                    self.closing(CauseView::Cancelled)
                } else {
                    ExecView { phase: Phase::BetweenForms, ..self }
                },
            }
        } else {
            let failure = match self.unwind {
                Some(CauseView::Failure(failure)) => failure.detailed(message),
                _ => FailureView::plain(message, DrawingOutcome::NotStarted),
            };
            ExecView { unwind: None, ..self }.ended(OutcomeView::Failure(failure))
        }
    }

    /// A form was evaluated. A failure of the evaluation itself comes before one
    /// of the bridge, and either before a cancellation.
    pub open spec fn form_completed(
        self,
        index: usize,
        line: usize,
        column: usize,
        result: StepResultView,
    ) -> ExecView {
        let closed = ExecView {
            bridge: self.bridge.closed_after(ValueOutputKind::Form),
            value_retained: self.value_retained || (self.mode is Eval && result.succeeded()),
            ..self
        };
        let failure = FailureView {
            message: result.message("form evaluation failed"@),
            form_index: Some(index),
            location: Some(self.location(line, column)),
            drawing_outcome: DrawingOutcome::Unknown,
            drawing_error: None,
        };
        let bridge_failure = self.bridge.settled(ValueOutputKind::Form).failure;
        if result.primary_failed() {
            closed.unwound(CauseView::Failure(failure))
        } else if bridge_failure is Some {
            closed.unwound(
                CauseView::Failure(
                    FailureView { message: result.bridge_message(bridge_failure->0), ..failure },
                ),
            )
        } else if !result.succeeded() {
            closed.unwound(CauseView::Failure(failure))
        } else if self.cancel_requested {
            closed.unwound(CauseView::Cancelled)
        } else {
            ExecView { phase: Phase::BetweenForms, ..closed }
        }
    }

    /// The undo group was committed, or not.
    pub open spec fn commit_completed(self, result: StepResultView) -> ExecView {
        if !result.succeeded() {
            self.unwound(
                CauseView::Failure(
                    FailureView::plain(
                        result.message("could not finish the undo group"@),
                        DrawingOutcome::Unknown,
                    ),
                ),
            )
        } else if self.mode is Eval && self.value_retained {
            ExecView { phase: Phase::EmitEvalValue, ..self }
        } else if self.mode is Eval {
            self.ended(
                OutcomeView::Failure(
                    self.eval_failure(
                        "the AutoLISP evaluator did not retain its result value"@,
                        DrawingOutcome::Committed,
                    ),
                ),
            )
        } else {
            self.ended(OutcomeView::Success)
        }
    }

    /// The retained value was emitted, or not. The commit stands either way.
    pub open spec fn emit_completed(self, result: StepResultView) -> ExecView {
        let closed = ExecView {
            bridge: self.bridge.closed_after(ValueOutputKind::EvalValue),
            ..self
        };
        let bridge_failure = self.bridge.settled(ValueOutputKind::EvalValue).failure;
        if !result.primary_failed() && bridge_failure is Some {
            closed.ended(
                OutcomeView::Failure(
                    self.eval_failure(
                        result.bridge_message(bridge_failure->0),
                        DrawingOutcome::Committed,
                    ),
                ),
            )
        } else if !result.succeeded() {
            closed.ended(
                OutcomeView::Failure(
                    self.eval_failure(
                        result.message("could not emit the eval result"@),
                        DrawingOutcome::Committed,
                    ),
                ),
            )
        } else {
            ExecView { value_retained: false, ..closed }.ended(OutcomeView::Success)
        }
    }

    /// The retained value was cleared, or not; the rollback follows either way.
    pub open spec fn clear_completed(self, result: StepResultView) -> ExecView {
        let cleanup = result.message("could not clear the retained AutoLISP evaluator value"@);
        if result.succeeded() {
            ExecView { value_retained: false, phase: Phase::RollbackUndoGroup, ..self }
        } else {
            let failure = match self.unwind {
                Some(CauseView::Failure(failure)) => failure.detailed(cleanup),
                _ => self.eval_failure(cleanup, DrawingOutcome::Unknown),
            };
            ExecView {
                unwind: Some(CauseView::Failure(failure)),
                phase: Phase::RollbackUndoGroup,
                ..self
            }
        }
    }

    /// The empty undo group was closed, or not.
    pub open spec fn close_completed(self, cause: CauseView, result: StepResultView) -> ExecView {
        let outcome = match cause {
            CauseView::Cancelled => if result.succeeded() {
                OutcomeView::Cancelled
            } else {
                OutcomeView::Failure(
                    FailureView::plain(
                        result.message("could not close the cancelled undo group"@),
                        DrawingOutcome::Unknown,
                    ),
                )
            },
            CauseView::Failure(failure) => if result.succeeded() {
                OutcomeView::Failure(failure)
            } else {
                OutcomeView::Failure(
                    failure.detailed(
                        result.message("could not close the expired undo group"@),
                    ).with_drawing(DrawingOutcome::Unknown),
                )
            },
        };
        ExecView { unwind: None, ..self }.ended(outcome)
    }

    /// The undo group was rolled back, or not.
    pub open spec fn rollback_completed(
        self,
        cause: CauseView,
        result: StepResultView,
    ) -> ExecView {
        let message = result.message("drawing unwind failed"@);
        let outcome = match cause {
            CauseView::Failure(failure) => OutcomeView::Failure(
                if result.succeeded() {
                    failure.with_drawing(DrawingOutcome::RolledBack)
                } else {
                    failure.detailed(message).with_drawing(DrawingOutcome::Unknown)
                },
            ),
            CauseView::Cancelled => if result.succeeded() {
                OutcomeView::Cancelled
            } else {
                OutcomeView::Failure(FailureView::plain(message, DrawingOutcome::Unknown))
            },
        };
        ExecView { unwind: None, ..self }.ended(outcome)
    }

    /// After an awaited result came in.
    pub open spec fn completed(self, result: StepResultView) -> ExecView {
        match self.phase {
            Phase::AwaitingBeginUndoGroup => self.begin_completed(result),
            Phase::AwaitingEvaluateForm { index, line, column } => self.form_completed(
                index,
                line,
                column,
                result,
            ),
            Phase::AwaitingCommitUndoGroup => self.commit_completed(result),
            Phase::AwaitingEmitEvalValue => self.emit_completed(result),
            Phase::AwaitingClearRetainedEvalValue => self.clear_completed(result),
            Phase::AwaitingCloseEmptyUndoGroup => self.close_completed(self.unwind->0, result),
            Phase::AwaitingRollbackUndoGroup => self.rollback_completed(self.unwind->0, result),
            _ => self,
        }
    }

    /// Whether a cancellation is still taken, or was taken before.
    pub open spec fn cancellable(self) -> bool {
        self.cancel_requested || (self.unwind is None && !self.phase.past_cancellation())
    }

    /// Whether the start deadline can still end the execution.
    pub open spec fn expirable(self) -> bool {
        &&& !self.form_handed_off
        &&& self.outcome is None
        &&& !self.cancel_requested
        &&& self.phase is BeginUndoGroup || self.phase is AwaitingBeginUndoGroup
            || self.phase is BetweenForms
    }

    /// After the start deadline passed.
    pub open spec fn expired(self, message: Seq<char>) -> ExecView {
        let failure = FailureView::plain(message, DrawingOutcome::NotStarted);
        if self.phase is BeginUndoGroup {
            self.ended(OutcomeView::Failure(failure))
        } else if self.phase is AwaitingBeginUndoGroup {
            ExecView { unwind: Some(CauseView::Failure(failure)), ..self }
        } else {
            self.closing(CauseView::Failure(failure))
        }
    }

    /// What is known so far, as an outcome.
    pub open spec fn existing_outcome(self) -> Option<OutcomeView> {
        match self.outcome {
            Some(outcome) => Some(outcome),
            None => match self.unwind {
                Some(CauseView::Failure(failure)) => Some(OutcomeView::Failure(failure)),
                Some(CauseView::Cancelled) => Some(OutcomeView::Cancelled),
                None => None,
            },
        }
    }

    /// After the bridge of an ended execution could not be finalized: the drawing is in
    /// doubt.
    pub open spec fn finalization_failed(self, result: StepResultView) -> ExecView {
        match self.outcome {
            Some(outcome) => ExecView {
                outcome: Some(
                    OutcomeView::Failure(
                        outcome.into_unknown_failure(
                            result.message("the execution bridge could not be finalized safely"@),
                        ),
                    ),
                ),
                ..self
            },
            None => self,
        }
    }

    /// After the native side gave the execution up: the drawing is in doubt.
    pub open spec fn abandoned(self, result: StepResultView) -> ExecView {
        let message = result.message("execution could not continue safely"@);
        let place = match self.phase {
            Phase::AwaitingEvaluateForm { index, line, column } => (
                Some(index),
                Some(self.location(line, column)),
            ),
            Phase::AwaitingEmitEvalValue => (Some(1usize), self.eval_location),
            _ => (None, None),
        };
        let failure = match self.existing_outcome() {
            Some(existing) => existing.into_unknown_failure(message),
            None => FailureView {
                message,
                form_index: place.0,
                location: place.1,
                drawing_outcome: DrawingOutcome::Unknown,
                drawing_error: None,
            },
        };
        ExecView {
            outcome: Some(OutcomeView::Failure(failure)),
            unwind: if self.outcome is Some {
                self.unwind
            } else {
                None
            },
            phase: if self.phase is Done {
                Phase::Done
            } else {
                Phase::Terminal
            },
            bridge: if self.phase is AwaitingEvaluateForm {
                self.bridge.closed_after(ValueOutputKind::Form)
            } else if self.phase is AwaitingEmitEvalValue {
                self.bridge.closed_after(ValueOutputKind::EvalValue)
            } else {
                self.bridge
            },
            ..self
        }
    }
}

/// Whatever becomes of an execution, its source stays.
pub proof fn law_source_is_kept(exec: ExecView, result: StepResultView, message: Seq<char>)
    ensures
        exec.stepped().source == exec.source,
        exec.completed(result).source == exec.source,
        exec.expired(message).source == exec.source,
        exec.abandoned(result).source == exec.source,
{
}

/// Once the commit has succeeded, nothing unwinds the undo group any more: no
/// later step, result, cancellation or deadline leads back.
pub proof fn law_commit_is_final(exec: ExecView, result: StepResultView)
    requires
        exec.consistent(),
        exec.phase.settled(),
    ensures
        exec.stepped().phase.settled(),
        exec.completed(result).phase.settled(),
        exec.abandoned(result).phase.settled(),
        !exec.expirable(),
        !exec.cancel_requested ==> !exec.cancellable(),
        exec.resolved().step().kind is EmitEvalValue || exec.resolved().step().kind is Done
            || exec.resolved().step().kind is Invalid,
{
}

/// The forms of a batch are handed out one by one in the order of the source, each with
/// its exact text, and the undo group is committed when all of them were.
pub proof fn law_forms_are_handed_out_in_order(exec: ExecView, result: StepResultView)
    requires
        exec.consistent(),
    ensures
        exec.resolved().step().kind is EvaluateForm ==> {
            &&& exec.next_item() matches Some(Ok(span)) && exec.resolved().step().source
                == span_text(exec.source, span)
            &&& exec.stepped().next_form == exec.next_form + 1
        },
        !(exec.resolved().step().kind is EvaluateForm) ==> exec.stepped().next_form
            == exec.next_form,
        exec.completed(result).next_form == exec.next_form,
        exec.resolved().step().kind is CommitUndoGroup ==> exec.next_form == exec.forms.len(),
{
}

/// An undo group that was opened stays so until it is committed, closed or rolled back:
/// nothing else ends it, whatever fails, is cancelled or comes too late.
pub proof fn law_undo_group_is_settled(exec: ExecView, result: StepResultView, message: Seq<char>)
    requires
        exec.consistent(),
    ensures
        exec.phase is AwaitingBeginUndoGroup && result.succeeded() ==> exec.completed(
            result,
        ).phase.group_open(),
        exec.phase.group_open() ==> exec.stepped().phase.group_open(),
        exec.phase.group_open() && exec.expirable() ==> exec.expired(message).phase.group_open(),
        exec.phase.group_open() && !exec.completed(result).phase.group_open() ==> {
            ||| exec.phase is AwaitingCommitUndoGroup && result.succeeded()
            ||| exec.phase is AwaitingCloseEmptyUndoGroup
            ||| exec.phase is AwaitingRollbackUndoGroup
        },
{
}

/// A first cancellation is refused from the hand-out of the commit on.
pub proof fn law_cancellation_after_commit_handoff_is_too_late(exec: ExecView)
    requires
        exec.consistent(),
        exec.phase is BetweenForms,
        !exec.cancel_requested,
        exec.next_item() is None,
    ensures
        exec.resolved().step().kind is CommitUndoGroup,
        !exec.stepped().cancellable(),
{
}

/// Every step that is handed out and every result that is taken brings the
/// execution nearer to its end, so it ends.
pub proof fn law_every_step_makes_progress(exec: ExecView, result: StepResultView)
    requires
        exec.consistent(),
    ensures
        !(exec.resolved().step().kind is Invalid) ==> decreases_to!(
            exec.forms.len() - exec.next_form, exec.phase.distance() =>
            exec.forms.len() - exec.stepped().next_form, exec.stepped().phase.distance()
        ),
        exec.phase.awaiting() ==> decreases_to!(
            exec.forms.len() - exec.next_form, exec.phase.distance() =>
            exec.forms.len() - exec.completed(result).next_form,
            exec.completed(result).phase.distance()
        ),
{
}

/// A running execution that ends by a step or a result has an outcome, and no
/// cause to unwind is left over.
pub proof fn law_the_end_has_an_outcome(exec: ExecView, result: StepResultView)
    requires
        exec.consistent(),
        !(exec.phase is Terminal),
        !(exec.phase is Done),
    ensures
        exec.resolved().phase is Terminal ==> exec.resolved().outcome is Some,
        exec.completed(result).phase is Terminal ==> exec.completed(result).outcome is Some
            && exec.completed(result).unwind is None,
        exec.abandoned(result).outcome is Some && exec.abandoned(result).unwind is None,
{
}

/// The failure that started a rollback is the one reported: its place is kept,
/// its message is kept or gains the reason why the rollback failed, and the
/// drawing counts as rolled back only if the rollback succeeded.
pub proof fn law_rollback_reports_the_first_failure(
    exec: ExecView,
    failure: FailureView,
    result: StepResultView,
)
    requires
        exec.consistent(),
        exec.phase is AwaitingRollbackUndoGroup,
        exec.unwind == Some(CauseView::Failure(failure)),
    ensures
        exec.completed(result).outcome matches Some(OutcomeView::Failure(reported))
            && reported.form_index == failure.form_index && reported.location == failure.location
            && (reported.drawing_outcome is RolledBack <==> result.succeeded()) && (
        result.succeeded() ==> reported.message == failure.message) && (!result.succeeded()
            ==> reported.message == diagnostic::appended_text(
            failure.message,
            result.message("drawing unwind failed"@),
        )),
{
}

/// A failed evaluation is reported even if cancellation was requested meanwhile.
pub proof fn law_failure_wins_over_cancellation(exec: ExecView, result: StepResultView)
    requires
        exec.consistent(),
        exec.phase is AwaitingEvaluateForm,
        result.primary_failed(),
    ensures
        exec.completed(result).unwind matches Some(CauseView::Failure(failure))
            && failure.message == result.message("form evaluation failed"@),
        exec.completed(result).phase.unwinding(),
{
}

/// An evaluation never rolls back before the value that it may have retained has
/// been cleared.
pub proof fn law_retained_value_is_cleared_first(exec: ExecView, result: StepResultView)
    requires
        exec.consistent(),
        exec.mode is Eval,
        exec.phase is AwaitingEvaluateForm || exec.phase is AwaitingCommitUndoGroup,
        exec.form_handed_off,
    ensures
        !(exec.completed(result).phase is RollbackUndoGroup),
        exec.completed(result).phase.unwinding()
            ==> exec.completed(result).phase is ClearRetainedEvalValue,
{
}

/// Work that is said not to have started belongs to an execution that never
/// handed out a form.
pub proof fn law_not_started_means_no_form(exec: ExecView)
    requires
        exec.consistent(),
        exec.outcome matches Some(OutcomeView::Failure(failure))
            && failure.drawing_outcome is NotStarted,
    ensures
        !exec.form_handed_off,
{
}

impl ExecStepResult {
    fn succeeded(&self) -> (result: bool)
        ensures
            result == self@.succeeded(),
    {
        self.kind == ExecStepResultKind::Success && self.bridge_symbols_clear_status == 0
    }

    fn primary_failed(&self) -> (result: bool)
        ensures
            result == self@.primary_failed(),
    {
        self.kind != ExecStepResultKind::Success
    }

    fn bridge_symbols_clear_message(&self) -> (message: Option<String>)
        ensures
            message is Some <==> self@.cleanup_text() is Some,
            message matches Some(message) ==> message@ == self@.cleanup_text()->0,
    {
        if self.bridge_symbols_clear_status == 0 {
            return None;
        }
        Some(
            status_text(
                "could not clear the reserved AutoLISP execution bridge symbols (native status ",
                "",
                self.bridge_symbols_clear_status,
            ),
        )
    }

    pub(crate) fn into_message(self, fallback: &str) -> (message: String)
        ensures
            message@ == self@.message(fallback@),
    {
        let ghost view = self@;
        let cleanup = self.bridge_symbols_clear_message();
        let primary = if self.kind == ExecStepResultKind::Success {
            None
        } else if !self.detail.as_str().is_empty() {
            Some(self.detail)
        } else if self.kind == ExecStepResultKind::LispError && self.lisp_errno != 0 {
            Some(status_text(fallback, " (ERRNO ", self.lisp_errno))
        } else if self.native_status != 0 {
            Some(status_text(fallback, " (native status ", self.native_status))
        } else {
            Some(fallback.to_owned())
        };
        let message = match (primary, cleanup) {
            (Some(primary), Some(cleanup)) => {
                let mut message = primary;
                message.push_str("; ");
                message.push_str(cleanup.as_str());
                message
            },
            (Some(primary), None) => primary,
            (None, Some(cleanup)) => cleanup,
            (None, None) => fallback.to_owned(),
        };
        bounded_diagnostic(message)
    }
}

/// A text, a label and a number in front of a closing bracket.
fn status_text(start: &str, label: &str, status: i32) -> (message: String)
    ensures
        message@ == start@ + label@ + text::signed_decimal(status as int) + ")"@,
        label@ == ""@ ==> message@ == start@ + text::signed_decimal(status as int) + ")"@,
{
    let mut message = start.to_owned();
    message.push_str(label);
    push_signed_decimal(&mut message, status as i64);
    message.push_str(")");
    proof {
        reveal_strlit("");
        if label@ == ""@ {
            assert(start@ + label@ =~= start@);
        }
    }
    message
}

proof fn lemma_nul_free(chars: Seq<char>)
    ensures
        encode_utf8(chars).contains(0u8) <==> chars.contains('\0'),
    decreases chars.len(),
{
    if chars.len() == 0 {
    } else {
        let rest = chars.drop_first();
        let first = encode_scalar(chars[0] as u32);
        lemma_nul_free(rest);
        lemma_scalar_nul(chars[0]);
        let bytes = encode_utf8(chars);
        assert(bytes == first + encode_utf8(rest));
        if bytes.contains(0u8) {
            let i = choose|i: int| 0 <= i < bytes.len() && bytes[i] == 0u8;
            if i < first.len() {
                assert(first.contains(0u8)) by {
                    assert(first[i] == 0u8);
                }
                assert(chars[0] == '\0');
            } else {
                assert(encode_utf8(rest)[i - first.len()] == 0u8);
                let j = choose|j: int| 0 <= j < rest.len() && rest[j] == '\0';
                assert(chars[j + 1] == '\0');
            }
        }
        if chars.contains('\0') {
            let j = choose|j: int| 0 <= j < chars.len() && chars[j] == '\0';
            if j == 0 {
                let i = choose|i: int| 0 <= i < first.len() && first[i] == 0u8;
                assert(bytes[i] == 0u8);
            } else {
                assert(rest[j - 1] == '\0');
                let i = choose|i: int|
                    0 <= i < encode_utf8(rest).len() && encode_utf8(rest)[i] == 0u8;
                assert(bytes[first.len() + i] == 0u8);
            }
        }
    }
}

proof fn lemma_scalar_nul(ch: char)
    ensures
        encode_scalar(ch as u32).contains(0u8) <==> ch == '\0',
{
    let c = ch as u32;
    char_is_scalar(ch);
    let bytes = encode_scalar(c);
    if has_width_1_encoding(c) {
        assert(leading_byte_width_1(c) == c) by (bit_vector)
            requires
                has_width_1_encoding(c),
        ;
        assert(bytes[0] == c);
    } else {
        assert(leading_byte_width_2(c) != 0 && leading_byte_width_3(c) != 0
            && leading_byte_width_4(c) != 0 && last_continuation_byte(c) != 0
            && second_last_continuation_byte(c) != 0 && third_last_continuation_byte(c) != 0)
            by (bit_vector);
    }
}

fn starts_with_mark(bytes: &[u8]) -> (result: bool)
    ensures
        result == (without_mark(bytes@) != bytes@),
        result ==> without_mark(bytes@) == bytes@.skip(3) && bytes@.len() >= 3,
{
    let marked = bytes.len() >= 3 && bytes[0] == 0xef && bytes[1] == 0xbb && bytes[2] == 0xbf;
    proof {
        if marked {
            assert(bytes@.skip(3).len() != bytes@.len());
        }
    }
    marked
}

fn contains_nul(bytes: &[u8]) -> (result: bool)
    ensures
        result == bytes@.contains(0u8),
{
    let mut index: usize = 0;
    while index < bytes.len()
        invariant
            index <= bytes@.len(),
            forall|i: int| 0 <= i < index ==> bytes@[i] != 0u8,
        decreases bytes@.len() - index,
    {
        if bytes[index] == 0 {
            assert(bytes@[index as int] == 0u8);
            return true;
        }
        index = index + 1;
    }
    false
}

/// The source without its byte-order mark, if its bytes can be executed: not too
/// many, valid UTF-8, and no null character.
pub fn validated_source(source: Bytes) -> (validated: Result<Bytes, SourceValidationError>)
    ensures
        match validated {
            Ok(validated) => {
                &&& source_fault(source::bytes_contents(source)) is None
                &&& source::bytes_contents(validated) == without_mark(
                    source::bytes_contents(source),
                )
            },
            Err(error) => source_fault(source::bytes_contents(source)) == Some(error),
        },
{
    let marked = starts_with_mark(bytes_slice(&source));
    let stripped = if marked {
        bytes_from(&source, 3)
    } else {
        source
    };
    let bytes = bytes_slice(&stripped);
    if bytes.len() > MAX_EXECUTION_SOURCE_BYTES {
        return Err(SourceValidationError::SourceTooLarge);
    }
    if utf8_text(bytes).is_none() {
        return Err(SourceValidationError::InvalidUtf8);
    }
    proof {
        lemma_nul_free(decode_utf8(bytes@));
        decode_utf8_encode_utf8(bytes@);
    }
    if contains_nul(bytes) {
        return Err(SourceValidationError::NullCharacter);
    }
    Ok(stripped)
}

impl Exec {
    pub closed spec fn well_formed(&self) -> bool {
        &&& self@.consistent()
        &&& self.io.output.well_formed()
    }

    pub proof fn lemma_consistent(&self)
        requires
            self.well_formed(),
        ensures
            self@.consistent(),
    {
    }

    /// An execution of a source. `scan` is what the form scanner says of the
    /// source without its byte-order mark; it is read only where the bytes of the
    /// source can be executed.
    pub fn new(mode: ExecMode, source_name: String, source: Bytes, scan: SourceScan) -> (result:
        Result<Exec, SourceValidationError>)
        requires
            source_fault(source::bytes_contents(source)) is None ==> scan.fits(
                without_mark(source::bytes_contents(source)),
            ),
        ensures
            match result {
                Ok(exec) => {
                    &&& validation_fault(
                        mode,
                        source::bytes_contents(source),
                        scan.form_count,
                    ) is None
                    &&& exec.well_formed()
                    &&& exec@ == ExecView::fresh(
                        mode,
                        source_name@,
                        without_mark(source::bytes_contents(source)),
                        scan.forms@,
                        scan.form_count->Ok_0,
                    )
                },
                Err(error) => validation_fault(
                    mode,
                    source::bytes_contents(source),
                    scan.form_count,
                ) == Some(error),
            },
    {
        let source = match validated_source(source) {
            Ok(validated) => validated,
            Err(error) => return Err(error),
        };
        let form_count: usize = match scan.form_count {
            Ok(count) => count,
            Err(error) => return Err(SourceValidationError::Scan(error)),
        };
        if mode == ExecMode::Eval && form_count != 1 {
            return Err(SourceValidationError::ExpectedOneForm { actual: form_count });
        }
        let empty = form_count == 0;
        let mut output = channel();
        if empty {
            output.finish();
        }
        let exec = Exec {
            mode,
            source_name,
            source,
            forms: scan.forms,
            next_form: 0,
            phase: if empty {
                Phase::Terminal
            } else {
                Phase::BeginUndoGroup
            },
            form_handed_off: false,
            value_retained: false,
            eval_location: None,
            cancel_requested: false,
            unwind: None,
            outcome: if empty {
                Some(ExecOutcome::Success)
            } else {
                None
            },
            io: ExecIo::new(output),
        };
        Ok(exec)
    }

    pub fn outcome(&self) -> (outcome: Option<&ExecOutcome>)
        ensures
            outcome is Some <==> self@.outcome is Some,
            outcome matches Some(outcome) ==> Some(outcome@) == self@.outcome,
    {
        self.outcome.as_ref()
    }

    pub fn take_outcome(&mut self) -> (outcome: Option<ExecOutcome>)
        requires
            old(self).well_formed(),
        ensures
            final(self).well_formed(),
            outcome::outcome_view(outcome) == old(self)@.outcome,
            final(self)@ == (ExecView { outcome: None, ..old(self)@ }),
    {
        self.outcome.take()
    }

    /// The channel that the output of the execution goes through.
    pub fn output_sink(&mut self) -> (sink: &mut OutputSink)
        requires
            old(self).well_formed(),
        ensures
            sink.well_formed(),
            sink@ == old(self)@.output,
            final(self)@ == (ExecView { output: final(sink)@, ..old(self)@ }),
            final(sink).well_formed() ==> final(self).well_formed(),
    {
        &mut self.io.output
    }

    /// The channel of an execution that is over.
    pub fn into_output(self) -> (output: OutputSink)
        requires
            self.well_formed(),
        ensures
            output.well_formed(),
            output@ == self@.output,
    {
        self.io.output
    }

    /// The output and the bridge of the execution.
    pub fn io_mut(&mut self) -> (io: &mut ExecIo)
        requires
            old(self).well_formed(),
        ensures
            io.output.well_formed(),
            io.output@ == old(self)@.output,
            io.bridge == old(self)@.bridge,
            final(self)@ == (ExecView {
                output: final(io).output@,
                bridge: final(io).bridge,
                ..old(self)@
            }),
            final(io).output.well_formed() ==> final(self).well_formed(),
    {
        &mut self.io
    }

    pub fn source_bytes(&self) -> (count: usize)
        ensures
            count == self@.source.len(),
    {
        bytes_slice(&self.source).len()
    }

    pub fn has_handed_off_form(&self) -> (result: bool)
        ensures
            result == self@.form_handed_off,
    {
        self.form_handed_off
    }

    pub fn cancellation_requested(&self) -> (result: bool)
        ensures
            result == self@.cancel_requested,
    {
        self.cancel_requested
    }

    /// Whether the start deadline still has to be watched.
    pub fn start_deadline_pending(&self) -> (result: bool)
        ensures
            result == (!self@.form_handed_off && self@.outcome is None && !self@.cancel_requested
                && self@.unwind is None),
    {
        !self.form_handed_off && self.outcome.is_none() && !self.cancel_requested
            && self.unwind.is_none()
    }

    /// Claims the bridge for the form that is being evaluated.
    pub fn acquire_form_output(&mut self) -> (lease: Option<ValueOutputLease>)
        requires
            old(self).well_formed(),
        ensures
            final(self).well_formed(),
            lease is Some <==> old(self)@.phase is AwaitingEvaluateForm
                && old(self)@.bridge.claimable(ValueOutputKind::Form),
            match lease {
                Some(lease) => {
                    &&& lease == (ValueOutputLease {
                        generation: old(self)@.bridge.generation,
                        kind: ValueOutputKind::Form,
                    })
                    &&& final(self)@ == (ExecView {
                        bridge: old(self)@.bridge.claimed(),
                        ..old(self)@
                    })
                },
                None => final(self)@ == old(self)@,
            },
    {
        if let Phase::AwaitingEvaluateForm { .. } = self.phase {
            self.io.acquire_value_output(ValueOutputKind::Form)
        } else {
            None
        }
    }

    /// Claims the bridge for the value that is being emitted.
    pub fn acquire_eval_value_output(&mut self) -> (lease: Option<ValueOutputLease>)
        requires
            old(self).well_formed(),
        ensures
            final(self).well_formed(),
            lease is Some <==> old(self)@.phase is AwaitingEmitEvalValue
                && old(self)@.bridge.claimable(ValueOutputKind::EvalValue),
            match lease {
                Some(lease) => {
                    &&& lease == (ValueOutputLease {
                        generation: old(self)@.bridge.generation,
                        kind: ValueOutputKind::EvalValue,
                    })
                    &&& final(self)@ == (ExecView {
                        bridge: old(self)@.bridge.claimed(),
                        ..old(self)@
                    })
                },
                None => final(self)@ == old(self)@,
            },
    {
        if self.phase == Phase::AwaitingEmitEvalValue {
            self.io.acquire_value_output(ValueOutputKind::EvalValue)
        } else {
            None
        }
    }

    /// Asks for cancellation, and says whether it will still have an effect.
    pub fn request_cancel(&mut self) -> (accepted: bool)
        requires
            old(self).well_formed(),
        ensures
            final(self).well_formed(),
            accepted == old(self)@.cancellable(),
            final(self)@ == if accepted {
                ExecView { cancel_requested: true, ..old(self)@ }
            } else {
                old(self)@
            },
    {
        if self.cancel_requested {
            return true;
        }
        if self.unwind.is_some() {
            return false;
        }
        match self.phase {
            Phase::AwaitingCommitUndoGroup
            | Phase::EmitEvalValue
            | Phase::AwaitingEmitEvalValue
            | Phase::ClearRetainedEvalValue
            | Phase::AwaitingClearRetainedEvalValue
            | Phase::CloseEmptyUndoGroup
            | Phase::AwaitingCloseEmptyUndoGroup
            | Phase::RollbackUndoGroup
            | Phase::AwaitingRollbackUndoGroup
            | Phase::Terminal
            | Phase::Done => {
                return false;
            },
            Phase::BeginUndoGroup
            | Phase::AwaitingBeginUndoGroup
            | Phase::BetweenForms
            | Phase::AwaitingEvaluateForm { .. } => {},
        }
        self.cancel_requested = true;
        true
    }

    /// The start deadline passed; says whether that ends the execution.
    pub fn expire_before_start(&mut self, message: String) -> (expired: bool)
        requires
            old(self).well_formed(),
        ensures
            final(self).well_formed(),
            expired == old(self)@.expirable(),
            final(self)@ == if expired {
                old(self)@.expired(message@)
            } else {
                old(self)@
            },
    {
        if self.form_handed_off || self.outcome.is_some() || self.cancel_requested {
            return false;
        }
        let failure = ExecFailure::not_started(message);
        match self.phase {
            Phase::BeginUndoGroup => {
                self.outcome = Some(ExecOutcome::Failure(failure));
                self.phase = Phase::Terminal;
            },
            Phase::AwaitingBeginUndoGroup => {
                self.unwind = Some(UnwindCause::Failure(failure));
            },
            Phase::BetweenForms => {
                self.unwind = Some(UnwindCause::Failure(failure));
                self.phase = Phase::CloseEmptyUndoGroup;
            },
            Phase::AwaitingEvaluateForm { .. }
            | Phase::AwaitingCommitUndoGroup
            | Phase::EmitEvalValue
            | Phase::AwaitingEmitEvalValue
            | Phase::ClearRetainedEvalValue
            | Phase::AwaitingClearRetainedEvalValue
            | Phase::CloseEmptyUndoGroup
            | Phase::AwaitingCloseEmptyUndoGroup
            | Phase::RollbackUndoGroup
            | Phase::AwaitingRollbackUndoGroup
            | Phase::Terminal
            | Phase::Done => {
                return false;
            },
        }
        true
    }

    /// Cancels an execution that has not begun.
    pub fn cancel_before_start(&mut self) -> (cancelled: bool)
        requires
            old(self).well_formed(),
        ensures
            final(self).well_formed(),
            cancelled == (old(self)@.phase is BeginUndoGroup),
            final(self)@ == if cancelled {
                ExecView { cancel_requested: true, ..old(self)@.ended(OutcomeView::Cancelled) }
            } else {
                old(self)@
            },
    {
        if self.outcome.is_some() || self.phase != Phase::BeginUndoGroup {
            return false;
        }
        self.cancel_requested = true;
        self.outcome = Some(ExecOutcome::Cancelled);
        self.phase = Phase::Terminal;
        true
    }

    fn begin_unwind(&mut self, cause: UnwindCause)
        ensures
            final(self)@ == old(self)@.unwound(cause@),
            final(self).io == old(self).io,
    {
        self.unwind = Some(cause);
        self.phase =
        if self.mode == ExecMode::Eval && self.form_handed_off {
            Phase::ClearRetainedEvalValue
        } else {
            Phase::RollbackUndoGroup
        };
    }

    /// Lets a requested cancellation or a scanner error take effect.
    fn resolve(&mut self)
        requires
            old(self).well_formed(),
        ensures
            final(self).well_formed(),
            final(self)@ == old(self)@.resolved(),
    {
        if self.phase == Phase::BeginUndoGroup && self.cancel_requested {
            self.outcome = Some(ExecOutcome::Cancelled);
            self.phase = Phase::Terminal;
        } else if self.phase == Phase::BetweenForms && self.cancel_requested {
            if self.form_handed_off {
                self.begin_unwind(UnwindCause::Cancelled);
            } else {
                self.unwind = Some(UnwindCause::Cancelled);
                self.phase = Phase::CloseEmptyUndoGroup;
            }
        } else if self.phase == Phase::BetweenForms && self.next_form < self.forms.len() {
            let failure = match &self.forms[self.next_form] {
                Ok(_) => None,
                Err(error) => Some(
                    ExecFailure {
                        message: error.message.clone(),
                        form_index: None,
                        location: Some(
                            SourceLocation::from_scan_error(self.source_name.clone(), error),
                        ),
                        drawing_outcome: DrawingOutcome::Unknown,
                        drawing_error: None,
                    },
                ),
            };
            if let Some(failure) = failure {
                self.begin_unwind(UnwindCause::Failure(failure));
            }
        }
    }

    /// Hands out the next step.
    pub fn take_step(&mut self) -> (step: NativeExecStep)
        requires
            old(self).well_formed(),
        ensures
            final(self).well_formed(),
            final(self)@ == old(self)@.stepped(),
            step.well_formed(),
            step@ == old(self)@.resolved().step(),
    {
        self.resolve();
        match self.phase {
            Phase::BeginUndoGroup => {
                self.phase = Phase::AwaitingBeginUndoGroup;
                NativeExecStep::new(ExecStepKind::BeginUndoGroup)
            },
            Phase::BetweenForms => {
                if self.next_form < self.forms.len() {
                    if let Ok(span) = self.forms[self.next_form] {
                        let index: usize = self.next_form + 1;
                        self.next_form = index;
                        self.phase = Phase::AwaitingEvaluateForm {
                            index,
                            line: span.line,
                            column: span.column,
                        };
                        if self.mode == ExecMode::Eval {
                            self.eval_location = Some(
                                SourceLocation::from_span(self.source_name.clone(), &span),
                            );
                        }
                        self.form_handed_off = true;
                        self.io.begin_value_output(ValueOutputKind::Form);
                        return NativeExecStep::form(
                            bytes_clone(&self.source),
                            span,
                            self.mode == ExecMode::Eval,
                        );
                    }
                }
                self.phase = Phase::AwaitingCommitUndoGroup;
                NativeExecStep::new(ExecStepKind::CommitUndoGroup)
            },
            Phase::EmitEvalValue => {
                self.io.begin_value_output(ValueOutputKind::EvalValue);
                self.phase = Phase::AwaitingEmitEvalValue;
                NativeExecStep::new(ExecStepKind::EmitEvalValue)
            },
            Phase::ClearRetainedEvalValue => {
                self.phase = Phase::AwaitingClearRetainedEvalValue;
                NativeExecStep::new(ExecStepKind::ClearRetainedEvalValue)
            },
            Phase::CloseEmptyUndoGroup => {
                self.phase = Phase::AwaitingCloseEmptyUndoGroup;
                NativeExecStep::new(ExecStepKind::CloseEmptyUndoGroup)
            },
            Phase::RollbackUndoGroup => {
                self.phase = Phase::AwaitingRollbackUndoGroup;
                NativeExecStep::new(ExecStepKind::RollbackUndoGroup)
            },
            Phase::Terminal => {
                self.phase = Phase::Done;
                NativeExecStep::new(ExecStepKind::Done)
            },
            Phase::AwaitingBeginUndoGroup
            | Phase::AwaitingEvaluateForm { .. }
            | Phase::AwaitingCommitUndoGroup
            | Phase::AwaitingEmitEvalValue
            | Phase::AwaitingClearRetainedEvalValue
            | Phase::AwaitingCloseEmptyUndoGroup
            | Phase::AwaitingRollbackUndoGroup
            | Phase::Done => NativeExecStep::new(ExecStepKind::Invalid),
        }
    }

    fn complete_begin(&mut self, result: ExecStepResult)
        requires
            old(self).well_formed(),
            old(self)@.phase is AwaitingBeginUndoGroup,
        ensures
            final(self).well_formed(),
            final(self)@ == old(self)@.begin_completed(result@),
    {
        if result.succeeded() {
            if self.unwind.is_some() {
                self.phase = Phase::CloseEmptyUndoGroup;
            } else if self.cancel_requested {
                self.unwind = Some(UnwindCause::Cancelled);
                self.phase = Phase::CloseEmptyUndoGroup;
            } else {
                self.phase = Phase::BetweenForms;
            }
            return ;
        }
        let begin = result.into_message("could not begin the undo group");
        let failure = match self.unwind.take() {
            Some(UnwindCause::Failure(failure)) => {
                let mut failure = failure;
                append_diagnostic(&mut failure.message, begin.as_str());
                failure
            },
            Some(UnwindCause::Cancelled) | None => ExecFailure::not_started(begin),
        };
        self.outcome = Some(ExecOutcome::Failure(failure));
        self.phase = Phase::Terminal;
    }

    fn complete_form(&mut self, index: usize, line: usize, column: usize, result: ExecStepResult)
        requires
            old(self).well_formed(),
            old(self)@.phase == (Phase::AwaitingEvaluateForm { index, line, column }),
            old(self)@.form_handed_off,
        ensures
            final(self).well_formed(),
            final(self)@ == old(self)@.form_completed(index, line, column, result@),
    {
        let bridge_failure = self.io.close_value_output(ValueOutputKind::Form);
        if self.mode == ExecMode::Eval && result.succeeded() {
            self.value_retained = true;
        }
        let succeeded = result.succeeded();
        let message = if result.primary_failed() {
            Some(result.into_message("form evaluation failed"))
        } else if let Some(bridge_failure) = bridge_failure {
            Some(bridge_message(bridge_failure, &result))
        } else if !succeeded {
            Some(result.into_message("form evaluation failed"))
        } else {
            None
        };
        if let Some(message) = message {
            let failure = ExecFailure {
                message,
                form_index: Some(index),
                location: Some(SourceLocation::new(self.source_name.clone(), line, column)),
                drawing_outcome: DrawingOutcome::Unknown,
                drawing_error: None,
            };
            self.begin_unwind(UnwindCause::Failure(failure));
        } else if self.cancel_requested {
            self.begin_unwind(UnwindCause::Cancelled);
        } else {
            self.phase = Phase::BetweenForms;
        }
    }

    fn complete_commit(&mut self, result: ExecStepResult)
        requires
            old(self).well_formed(),
            old(self)@.phase is AwaitingCommitUndoGroup,
        ensures
            final(self).well_formed(),
            final(self)@ == old(self)@.commit_completed(result@),
    {
        if !result.succeeded() {
            let message = result.into_message("could not finish the undo group");
            self.begin_unwind(
                UnwindCause::Failure(ExecFailure::unknown_drawing_outcome(message)),
            );
        } else if self.mode == ExecMode::Eval && self.value_retained {
            self.phase = Phase::EmitEvalValue;
        } else if self.mode == ExecMode::Eval {
            let failure = self.eval_failure(
                "the AutoLISP evaluator did not retain its result value".to_owned(),
                DrawingOutcome::Committed,
            );
            self.outcome = Some(ExecOutcome::Failure(failure));
            self.phase = Phase::Terminal;
        } else {
            self.outcome = Some(ExecOutcome::Success);
            self.phase = Phase::Terminal;
        }
    }

    fn complete_emit(&mut self, result: ExecStepResult)
        requires
            old(self).well_formed(),
            old(self)@.phase is AwaitingEmitEvalValue,
        ensures
            final(self).well_formed(),
            final(self)@ == old(self)@.emit_completed(result@),
    {
        let bridge_failure = self.io.close_value_output(ValueOutputKind::EvalValue);
        let succeeded = result.succeeded();
        let message = if result.primary_failed() {
            Some(result.into_message("could not emit the eval result"))
        } else if let Some(bridge_failure) = bridge_failure {
            Some(bridge_message(bridge_failure, &result))
        } else if !succeeded {
            Some(result.into_message("could not emit the eval result"))
        } else {
            None
        };
        if let Some(message) = message {
            let failure = self.eval_failure(message, DrawingOutcome::Committed);
            self.outcome = Some(ExecOutcome::Failure(failure));
        } else {
            self.value_retained = false;
            self.outcome = Some(ExecOutcome::Success);
        }
        self.phase = Phase::Terminal;
    }

    fn complete_clear(&mut self, result: ExecStepResult)
        requires
            old(self).well_formed(),
            old(self)@.phase is AwaitingClearRetainedEvalValue,
        ensures
            final(self).well_formed(),
            final(self)@ == old(self)@.clear_completed(result@),
    {
        if result.succeeded() {
            self.value_retained = false;
        } else {
            let cleanup = result.into_message(
                "could not clear the retained AutoLISP evaluator value",
            );
            self.record_value_cleanup_failure(cleanup);
        }
        self.phase = Phase::RollbackUndoGroup;
    }

    fn complete_close(&mut self, cause: UnwindCause, result: ExecStepResult)
        requires
            (ExecView { unwind: Some(cause@), ..old(self)@ }).consistent(),
            old(self)@.unwind is None,
            old(self).io.output.well_formed(),
            old(self)@.phase is AwaitingCloseEmptyUndoGroup,
        ensures
            final(self).well_formed(),
            final(self)@ == old(self)@.close_completed(cause@, result@),
    {
        let succeeded = result.succeeded();
        let outcome = match cause {
            UnwindCause::Cancelled => {
                if succeeded {
                    ExecOutcome::Cancelled
                } else {
                    ExecOutcome::Failure(
                        ExecFailure::unknown_drawing_outcome(
                            result.into_message("could not close the cancelled undo group"),
                        ),
                    )
                }
            },
            UnwindCause::Failure(failure) => {
                let mut failure = failure;
                if !succeeded {
                    let cleanup = result.into_message("could not close the expired undo group");
                    append_diagnostic(&mut failure.message, cleanup.as_str());
                    failure.drawing_outcome = DrawingOutcome::Unknown;
                }
                ExecOutcome::Failure(failure)
            },
        };
        self.outcome = Some(outcome);
        self.phase = Phase::Terminal;
    }

    fn complete_rollback(&mut self, cause: UnwindCause, result: ExecStepResult)
        requires
            (ExecView { unwind: Some(cause@), ..old(self)@ }).consistent(),
            old(self)@.unwind is None,
            old(self).io.output.well_formed(),
            old(self)@.phase is AwaitingRollbackUndoGroup,
        ensures
            final(self).well_formed(),
            final(self)@ == old(self)@.rollback_completed(cause@, result@),
    {
        let succeeded = result.succeeded();
        let outcome = match cause {
            UnwindCause::Failure(failure) => {
                let mut failure = failure;
                if succeeded {
                    failure.drawing_outcome = DrawingOutcome::RolledBack;
                } else {
                    let unwind = result.into_message("drawing unwind failed");
                    append_diagnostic(&mut failure.message, unwind.as_str());
                    failure.drawing_outcome = DrawingOutcome::Unknown;
                }
                ExecOutcome::Failure(failure)
            },
            UnwindCause::Cancelled => {
                if succeeded {
                    ExecOutcome::Cancelled
                } else {
                    ExecOutcome::Failure(
                        ExecFailure::unknown_drawing_outcome(
                            result.into_message("drawing unwind failed"),
                        ),
                    )
                }
            },
        };
        self.outcome = Some(outcome);
        self.phase = Phase::Terminal;
    }

    /// Takes the result of the step that was handed out; says whether one was awaited.
    pub fn complete_step(&mut self, result: ExecStepResult) -> (accepted: bool)
        requires
            old(self).well_formed(),
        ensures
            final(self).well_formed(),
            accepted == old(self)@.phase.awaiting(),
            final(self)@ == old(self)@.completed(result@),
    {
        match self.phase {
            Phase::AwaitingBeginUndoGroup => self.complete_begin(result),
            Phase::AwaitingEvaluateForm { index, line, column } => {
                self.complete_form(index, line, column, result)
            },
            Phase::AwaitingCommitUndoGroup => self.complete_commit(result),
            Phase::AwaitingEmitEvalValue => self.complete_emit(result),
            Phase::AwaitingClearRetainedEvalValue => self.complete_clear(result),
            Phase::AwaitingCloseEmptyUndoGroup => {
                let ghost before = self@;
                let cause = match self.unwind.take() {
                    Some(cause) => cause,
                    None => return false,
                };
                proof {
                    assert((ExecView { unwind: Some(cause@), ..self@ }) =~= before);
                }
                self.complete_close(cause, result)
            },
            Phase::AwaitingRollbackUndoGroup => {
                let ghost before = self@;
                let cause = match self.unwind.take() {
                    Some(cause) => cause,
                    None => return false,
                };
                proof {
                    assert((ExecView { unwind: Some(cause@), ..self@ }) =~= before);
                }
                self.complete_rollback(cause, result)
            },
            Phase::BeginUndoGroup
            | Phase::BetweenForms
            | Phase::EmitEvalValue
            | Phase::ClearRetainedEvalValue
            | Phase::CloseEmptyUndoGroup
            | Phase::RollbackUndoGroup
            | Phase::Terminal
            | Phase::Done => {
                return false;
            },
        }
        true
    }

    fn record_value_cleanup_failure(&mut self, cleanup: String)
        ensures
            final(self)@ == (ExecView {
                unwind: Some(
                    CauseView::Failure(
                        match old(self)@.unwind {
                            Some(CauseView::Failure(failure)) => failure.detailed(cleanup@),
                            _ => old(self)@.eval_failure(cleanup@, DrawingOutcome::Unknown),
                        },
                    ),
                ),
                ..old(self)@
            }),
            final(self).io == old(self).io,
    {
        let failure = match self.unwind.take() {
            Some(UnwindCause::Failure(failure)) => {
                let mut failure = failure;
                append_diagnostic(&mut failure.message, cleanup.as_str());
                failure
            },
            Some(UnwindCause::Cancelled) | None => {
                self.eval_failure(cleanup, DrawingOutcome::Unknown)
            },
        };
        self.unwind = Some(UnwindCause::Failure(failure));
    }

    fn eval_failure(&self, message: String, drawing_outcome: DrawingOutcome) -> (failure:
        ExecFailure)
        ensures
            failure@ == self@.eval_failure(message@, drawing_outcome),
    {
        ExecFailure {
            message: bounded_diagnostic(message),
            form_index: Some(1),
            location: duplicate_location(&self.eval_location),
            drawing_outcome,
            drawing_error: None,
        }
    }

    /// The bridge could not be closed down after the end: the drawing is in doubt.
    pub fn record_bridge_finalization_failure(&mut self, result: ExecStepResult) -> (recorded: bool)
        requires
            old(self).well_formed(),
        ensures
            final(self).well_formed(),
            recorded == (old(self)@.outcome is Some),
            final(self)@ == old(self)@.finalization_failed(result@),
    {
        let cleanup = result.into_message("the execution bridge could not be finalized safely");
        let outcome = match self.outcome.take() {
            Some(outcome) => outcome,
            None => return false,
        };
        self.outcome = Some(ExecOutcome::Failure(outcome.into_unknown_failure(cleanup)));
        true
    }

    /// The native side gives the execution up.
    pub fn abandon(&mut self, result: ExecStepResult) -> (accepted: bool)
        requires
            old(self).well_formed(),
        ensures
            accepted,
            final(self).well_formed(),
            final(self)@ == old(self)@.abandoned(result@),
    {
        let message = result.into_message("execution could not continue safely");
        let phase = self.phase;
        if let Phase::AwaitingEvaluateForm { .. } = phase {
            let _ = self.io.close_value_output(ValueOutputKind::Form);
        } else if phase == Phase::AwaitingEmitEvalValue {
            let _ = self.io.close_value_output(ValueOutputKind::EvalValue);
        }
        let existing = match self.outcome.take() {
            Some(outcome) => Some(outcome),
            None => match self.unwind.take() {
                Some(UnwindCause::Failure(failure)) => Some(ExecOutcome::Failure(failure)),
                Some(UnwindCause::Cancelled) => Some(ExecOutcome::Cancelled),
                None => None,
            },
        };
        let failure = match existing {
            Some(existing) => existing.into_unknown_failure(message),
            None => {
                let (form_index, location) = match phase {
                    Phase::AwaitingEvaluateForm { index, line, column } => (
                        Some(index),
                        Some(SourceLocation::new(self.source_name.clone(), line, column)),
                    ),
                    Phase::AwaitingEmitEvalValue => (
                        Some(1),
                        duplicate_location(&self.eval_location),
                    ),
                    _ => (None, None),
                };
                ExecFailure {
                    message,
                    form_index,
                    location,
                    drawing_outcome: DrawingOutcome::Unknown,
                    drawing_error: None,
                }
            },
        };
        self.outcome = Some(ExecOutcome::Failure(failure));
        self.phase =
        if phase == Phase::Done {
            Phase::Done
        } else {
            Phase::Terminal
        };
        true
    }
}

fn bridge_message(failure: ValueBridgeFailure, result: &ExecStepResult) -> (message: String)
    ensures
        message@ == result@.bridge_message(failure),
{
    let mut message = failure.message().to_owned();
    if let Some(cleanup) = result.bridge_symbols_clear_message() {
        append_diagnostic(&mut message, cleanup.as_str());
    }
    message
}

pub proof fn lemma_inner_boundary(bytes: Seq<u8>, start: int, end: int)
    requires
        valid_utf8(bytes),
        start <= end,
        is_char_boundary(bytes, start),
        is_char_boundary(bytes, end),
    ensures
        0 <= start <= end <= bytes.len(),
        is_char_boundary(bytes.subrange(0, end), start),
        valid_utf8(bytes.subrange(0, end)),
{
    valid_utf8_split(bytes, end);
    let head = bytes.subrange(0, end);
    if start < end {
        is_char_boundary_iff_not_is_continuation_byte(bytes, start);
        is_char_boundary_iff_not_is_continuation_byte(head, start);
    } else {
        is_char_boundary_start_end_of_seq(head);
    }
}

impl NativeExecStep {
    /// A form lies within its source.
    pub closed spec fn well_formed(&self) -> bool {
        (self.source is Some && self.span is Some) ==> {
            &&& valid_utf8(source::bytes_contents(self.source->0))
            &&& self.span->0.fits(source::bytes_contents(self.source->0))
        }
    }

    pub fn invalid() -> (step: NativeExecStep)
        ensures
            step.well_formed(),
            step@ == (StepView {
                kind: ExecStepKind::Invalid,
                source: Seq::empty(),
                retain_value: false,
            }),
    {
        NativeExecStep::new(ExecStepKind::Invalid)
    }

    fn new(kind: ExecStepKind) -> (step: NativeExecStep)
        ensures
            step.well_formed(),
            step@ == (StepView { kind, source: Seq::empty(), retain_value: false }),
    {
        NativeExecStep { kind, source: None, span: None, retain_value: false }
    }

    fn form(source: Bytes, span: FormSpan, retain_value: bool) -> (step: NativeExecStep)
        requires
            valid_utf8(source::bytes_contents(source)),
            span.fits(source::bytes_contents(source)),
        ensures
            step.well_formed(),
            step@ == (StepView {
                kind: ExecStepKind::EvaluateForm,
                source: span_text(source::bytes_contents(source), span),
                retain_value,
            }),
    {
        NativeExecStep {
            kind: ExecStepKind::EvaluateForm,
            source: Some(source),
            span: Some(span),
            retain_value,
        }
    }

    pub fn kind(&self) -> (kind: ExecStepKind)
        ensures
            kind == self@.kind,
    {
        self.kind
    }

    /// The text of the form to evaluate.
    pub fn source(&self) -> (form: &str)
        requires
            self.well_formed(),
        ensures
            form@ == self@.source,
    {
        match (&self.source, &self.span) {
            (Some(source), Some(span)) => {
                let ghost bytes = source::bytes_contents(*source);
                match utf8_text(bytes_slice(source)) {
                    Some(whole) => {
                        proof {
                            lemma_inner_boundary(
                                bytes,
                                span.byte_start as int,
                                span.byte_end as int,
                            );
                        }
                        let head = whole.split_at(span.byte_end).0;
                        let form = head.split_at(span.byte_start).1;
                        proof {
                            assert(encode_utf8(form@) =~= bytes.subrange(
                                span.byte_start as int,
                                span.byte_end as int,
                            ));
                            encode_utf8_decode_utf8(form@);
                        }
                        form
                    },
                    None => "",
                }
            },
            _ => {
                proof {
                    reveal_strlit("");
                    assert(""@ =~= Seq::<char>::empty());
                }
                ""
            },
        }
    }

    pub fn retain_value(&self) -> (result: bool)
        ensures
            result == self@.retain_value,
    {
        self.retain_value
    }
}

} // verus!
