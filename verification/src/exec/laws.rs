//! What an execution does next, and what it says in the end.
use vstd::prelude::*;

use super::diagnostic;
use super::io::ValueOutputKind;
use super::lisp::StepResultView;
use super::outcome::{DrawingOutcome, ExecMode, FailureView, OutcomeView};
use super::source::{FormSpan, ScanError};
use super::state::{CauseView, ExecView, Phase};
use super::ExecStepKind;
use crate::text;

verus! {

/// A step that did what it should and left nothing behind.
pub open spec fn good(result: StepResultView) -> bool {
    result.kind is Success && result.bridge_symbols_clear_status == 0
}

/// The step is one of a kind.
pub open spec fn next_step_is(exec: ExecView, kind: ExecStepKind) -> bool {
    exec.resolved().step().kind == kind
}

/// The undo group is given up for a cause: a value that an evaluation may have kept is
/// cleared first, and then the group is rolled back. There is no outcome yet.
pub open spec fn gives_up(before: ExecView, after: ExecView, cause: CauseView) -> bool {
    &&& after.unwind == Some(cause)
    &&& after.outcome is None
    &&& before.mode is Eval && before.form_handed_off ==> next_step_is(
        after,
        ExecStepKind::ClearRetainedEvalValue,
    )
    &&& before.mode is Exec || !before.form_handed_off ==> next_step_is(
        after,
        ExecStepKind::RollbackUndoGroup,
    )
}

/// The execution is over with an outcome.
pub open spec fn ends(after: ExecView, outcome: OutcomeView) -> bool {
    &&& after.outcome == Some(outcome)
    &&& after.unwind is None
    &&& next_step_is(after, ExecStepKind::Done)
}

/// What is said of a step: its own detail where it has one, else what could not be done,
/// with the number that the native side gave; and behind that the symbols that could not
/// be cleared.
pub proof fn law_step_messages(result: StepResultView, fallback: Seq<char>)
    ensures
        ({
            let message = result.message(fallback);
            let errno = result.kind is LispError && result.lisp_errno != 0;
            let native = result.native_status != 0 && !errno;
            let status = text::signed_decimal(result.native_status as int);
            let number = text::signed_decimal(result.lisp_errno as int);
            let cleared = result.bridge_symbols_clear_status == 0;
            let cleanup =
                "could not clear the reserved AutoLISP execution bridge symbols (native status "@
                + text::signed_decimal(result.bridge_symbols_clear_status as int) + ")"@;
            let failed = !(result.kind is Success);
            let plain = result.detail.len() == 0;
            &&& !failed && cleared ==> diagnostic::told_text(message, fallback)
            &&& !failed && !cleared ==> diagnostic::told_text(message, cleanup)
            &&& failed && cleared && !plain ==> diagnostic::told_text(message, result.detail)
            &&& failed && cleared && plain && errno ==> diagnostic::told_text(
                message,
                fallback + " (ERRNO "@ + number + ")"@,
            )
            &&& failed && cleared && plain && native ==> diagnostic::told_text(
                message,
                fallback + " (native status "@ + status + ")"@,
            )
            &&& failed && cleared && plain && !errno && !native ==> diagnostic::told_text(
                message,
                fallback,
            )
            &&& failed && !cleared && !plain ==> diagnostic::told_text(
                message,
                result.detail + "; "@ + cleanup,
            )
            &&& failed && !cleared && plain && !errno && !native ==> diagnostic::told_text(
                message,
                fallback + "; "@ + cleanup,
            )
            &&& failed && !cleared && plain && errno ==> diagnostic::told_text(
                message,
                fallback + " (ERRNO "@ + number + ")"@ + "; "@ + cleanup,
            )
            &&& failed && !cleared && plain && native ==> diagnostic::told_text(
                message,
                fallback + " (native status "@ + status + ")"@ + "; "@ + cleanup,
            )
        }),
{
    let whole = match (result.primary_text(fallback), result.cleanup_text()) {
        (Some(primary), Some(cleanup)) => primary + "; "@ + cleanup,
        (Some(primary), None) => primary,
        (None, Some(cleanup)) => cleanup,
        (None, None) => fallback,
    };
    diagnostic::law_diagnostic_keeps_its_text(whole);
}

/// An execution begins by opening the undo group, unless it was cancelled before: then it
/// is over, and nothing was done.
pub proof fn law_start_opens_the_group(exec: ExecView)
    requires
        exec.phase is BeginUndoGroup,
        exec.unwind is None,
    ensures
        !exec.cancel_requested ==> {
            &&& next_step_is(exec, ExecStepKind::BeginUndoGroup)
            &&& exec.stepped() == (ExecView { phase: Phase::AwaitingBeginUndoGroup, ..exec })
        },
        exec.cancel_requested ==> ends(exec.resolved(), OutcomeView::Cancelled) && next_step_is(
            exec,
            ExecStepKind::Done,
        ),
{
}

/// An open undo group is where the forms are evaluated. A group that could not be opened
/// ends the execution, with the reason, before anything was started.
pub proof fn law_opened_group_is_used(exec: ExecView, result: StepResultView)
    requires
        exec.consistent(),
        exec.phase is AwaitingBeginUndoGroup,
    ensures
        good(result) && exec.unwind is None && !exec.cancel_requested ==> exec.completed(result)
            == (ExecView { phase: Phase::BetweenForms, ..exec }),
        good(result) && exec.unwind is None && exec.cancel_requested ==> {
            &&& exec.completed(result).unwind == Some(CauseView::Cancelled)
            &&& next_step_is(exec.completed(result), ExecStepKind::CloseEmptyUndoGroup)
        },
        good(result) && exec.unwind is Some ==> {
            &&& exec.completed(result).unwind == exec.unwind
            &&& next_step_is(exec.completed(result), ExecStepKind::CloseEmptyUndoGroup)
        },
        !good(result) && exec.unwind is None ==> (exec.completed(result).outcome matches Some(
            OutcomeView::Failure(failure),
        ) && {
            &&& ends(exec.completed(result), OutcomeView::Failure(failure))
            &&& failure.drawing_outcome is NotStarted
            &&& failure.message == result.message("could not begin the undo group"@)
            &&& failure.form_index is None
            &&& failure.location is None
        }),
{
}

/// Between two forms the next one is handed out, with its exact text and its place; where
/// none is left, the undo group is committed. An evaluation has the native side keep the
/// value. What the scanner found wrong, or a cancellation, gives the undo group up.
pub proof fn law_next_form_is_handed_out(exec: ExecView)
    requires
        exec.consistent(),
        exec.phase is BetweenForms,
        exec.next_form < usize::MAX,
    ensures
        !exec.cancel_requested && exec.next_form == exec.forms.len() ==> {
            &&& next_step_is(exec, ExecStepKind::CommitUndoGroup)
            &&& exec.stepped() == (ExecView { phase: Phase::AwaitingCommitUndoGroup, ..exec })
        },
        !exec.cancel_requested && exec.next_form < exec.forms.len() ==> match exec.forms[exec.next_form] {
            Ok(span) => {
                &&& next_step_is(exec, ExecStepKind::EvaluateForm)
                &&& exec.resolved().step().source == vstd::utf8::decode_utf8(
                    exec.source.subrange(span.byte_start as int, span.byte_end as int),
                )
                &&& exec.resolved().step().retain_value <==> exec.mode is Eval
                &&& exec.stepped().phase matches Phase::AwaitingEvaluateForm {
                    index,
                    line,
                    column,
                } && index == exec.next_form + 1 && line == span.line && column == span.column
                &&& exec.stepped().next_form == exec.next_form + 1
                &&& exec.stepped().form_handed_off
                &&& exec.stepped().bridge.open_kind == Some(ValueOutputKind::Form)
                &&& exec.stepped().outcome is None
                &&& exec.stepped().unwind is None
                &&& exec.mode is Eval ==> (exec.stepped().eval_location matches Some(place)
                    && place.source_name == exec.source_name && place.line == span.line
                    && place.column == span.column)
            },
            Err(error) => exec.resolved().unwind matches Some(CauseView::Failure(failure)) && {
                &&& gives_up(exec, exec.resolved(), CauseView::Failure(failure))
                &&& failure.message == error.message@
                &&& failure.form_index is None
                &&& failure.location matches Some(place) && place.source_name
                    == exec.source_name && place.line == error.line && place.column
                    == error.column
            },
        },
        exec.cancel_requested && exec.form_handed_off ==> gives_up(
            exec,
            exec.resolved(),
            CauseView::Cancelled,
        ),
        exec.cancel_requested && !exec.form_handed_off ==> {
            &&& exec.resolved().unwind == Some(CauseView::Cancelled)
            &&& next_step_is(exec, ExecStepKind::CloseEmptyUndoGroup)
        },
{
}

/// A form that was evaluated is followed by the next. A failure of the form, or else of
/// its output, gives the undo group up, with the number of the form and its place; so does
/// a cancellation, where nothing failed.
pub proof fn law_evaluated_form_is_followed(exec: ExecView, result: StepResultView)
    requires
        exec.consistent(),
        exec.phase is AwaitingEvaluateForm,
    ensures
        ({
            let after = exec.completed(result);
            let broken = exec.bridge.settled(ValueOutputKind::Form).failure;
            let failed = !(result.kind is Success);
            &&& good(result) && broken is None && !exec.cancel_requested ==> {
                &&& after.phase is BetweenForms
                &&& after.outcome is None
                &&& after.unwind is None
                &&& after.next_form == exec.next_form
            }
            &&& good(result) && broken is None && exec.cancel_requested ==> gives_up(
                exec,
                after,
                CauseView::Cancelled,
            )
            &&& good(result) ==> (after.value_retained <==> exec.value_retained
                || exec.mode is Eval)
            &&& after.bridge.open_kind is None
            &&& !after.bridge.port_active
            &&& !good(result) || broken is Some ==> (after.unwind matches Some(
                CauseView::Failure(failure),
            ) && {
                &&& gives_up(exec, after, CauseView::Failure(failure))
                &&& failure.form_index == Some(exec.phase->AwaitingEvaluateForm_index)
                &&& failure.location matches Some(place) && place.source_name
                    == exec.source_name && place.line == exec.phase->AwaitingEvaluateForm_line
                    && place.column == exec.phase->AwaitingEvaluateForm_column
                &&& failed || broken is None ==> failure.message == result.message(
                    "form evaluation failed"@,
                )
                &&& !failed && broken is Some ==> failure.message == result.bridge_message(
                    broken->0,
                )
            })
        }),
{
}

/// The commit of a batch is its success. The commit of an evaluation is followed by its
/// value; where that was not kept, the execution failed with the drawing committed. A
/// commit that failed gives the undo group up.
pub proof fn law_commit_is_followed(exec: ExecView, result: StepResultView)
    requires
        exec.consistent(),
        exec.phase is AwaitingCommitUndoGroup,
    ensures
        good(result) && exec.mode is Exec ==> ends(exec.completed(result), OutcomeView::Success),
        good(result) && exec.mode is Eval && exec.value_retained ==> {
            &&& exec.completed(result).outcome is None
            &&& next_step_is(exec.completed(result), ExecStepKind::EmitEvalValue)
            &&& exec.completed(result).stepped().phase is AwaitingEmitEvalValue
            &&& exec.completed(result).stepped().bridge.open_kind == Some(
                ValueOutputKind::EvalValue,
            )
        },
        good(result) && exec.mode is Eval && !exec.value_retained ==> (exec.completed(
            result,
        ).outcome matches Some(OutcomeView::Failure(failure)) && {
            &&& ends(exec.completed(result), OutcomeView::Failure(failure))
            &&& failure.drawing_outcome is Committed
            &&& failure.form_index == Some(1usize)
            &&& failure.location == exec.eval_location
            &&& diagnostic::told_text(
                failure.message,
                "the AutoLISP evaluator did not retain its result value"@,
            )
        }),
        !good(result) ==> (exec.completed(result).unwind matches Some(CauseView::Failure(failure))
            && {
            &&& gives_up(exec, exec.completed(result), CauseView::Failure(failure))
            &&& failure.message == result.message("could not finish the undo group"@)
        }),
{
    diagnostic::law_diagnostic_keeps_its_text(
        "the AutoLISP evaluator did not retain its result value"@,
    );
}

/// The value of an evaluation that was given out is its success. Else the execution failed
/// with the drawing committed, at the place of its form.
pub proof fn law_given_out_value_is_the_success(exec: ExecView, result: StepResultView)
    requires
        exec.consistent(),
        exec.phase is AwaitingEmitEvalValue,
    ensures
        ({
            let after = exec.completed(result);
            let broken = exec.bridge.settled(ValueOutputKind::EvalValue).failure;
            let failed = !(result.kind is Success);
            &&& good(result) && broken is None ==> ends(after, OutcomeView::Success)
                && !after.value_retained
            &&& after.bridge.open_kind is None
            &&& !after.bridge.port_active
            &&& !good(result) || broken is Some ==> (after.outcome matches Some(
                OutcomeView::Failure(failure),
            ) && {
                &&& ends(after, OutcomeView::Failure(failure))
                &&& failure.drawing_outcome is Committed
                &&& failure.form_index == Some(1usize)
                &&& failure.location == exec.eval_location
                &&& !failed && broken is Some ==> diagnostic::told_text(
                    failure.message,
                    result.bridge_message(broken->0),
                )
                &&& failed || broken is None ==> diagnostic::told_text(
                    failure.message,
                    result.message("could not emit the eval result"@),
                )
            })
        }),
{
    let broken = exec.bridge.settled(ValueOutputKind::EvalValue).failure;
    if broken is Some {
        diagnostic::law_diagnostic_keeps_its_text(result.bridge_message(broken->0));
    }
    diagnostic::law_diagnostic_keeps_its_text(
        result.message("could not emit the eval result"@),
    );
}

/// A kept value that was to be cleared is followed by the rollback. Where it could not be
/// cleared, that is added to the failure, or is the failure itself.
pub proof fn law_cleared_value_is_followed_by_the_rollback(exec: ExecView, result: StepResultView)
    requires
        exec.consistent(),
        exec.phase is AwaitingClearRetainedEvalValue,
    ensures
        ({
            let after = exec.completed(result);
            let told = result.message("could not clear the retained AutoLISP evaluator value"@);
            &&& after.outcome is None
            &&& next_step_is(after, ExecStepKind::RollbackUndoGroup)
            &&& good(result) ==> after.unwind == exec.unwind && !after.value_retained
            &&& !good(result) ==> (after.unwind matches Some(CauseView::Failure(failure)) && {
                match exec.unwind->0 {
                    CauseView::Failure(first) => {
                        &&& diagnostic::told_text(failure.message, first.message + "; "@ + told)
                        &&& failure.form_index == first.form_index
                        &&& failure.location == first.location
                    },
                    CauseView::Cancelled => {
                        &&& diagnostic::told_text(failure.message, told)
                        &&& failure.form_index == Some(1usize)
                        &&& failure.location == exec.eval_location
                    },
                }
            })
        }),
{
    let told = result.message("could not clear the retained AutoLISP evaluator value"@);
    diagnostic::law_diagnostic_keeps_its_text(told);
    if let Some(CauseView::Failure(first)) = exec.unwind {
        diagnostic::law_diagnostic_keeps_its_text(first.message + "; "@ + told);
    }
}

/// An undo group in which nothing was done is closed, and the execution ends with what led
/// there; the drawing is in doubt where the group could not be closed.
pub proof fn law_closed_group_ends_the_execution(exec: ExecView, result: StepResultView)
    requires
        exec.consistent(),
        exec.phase is AwaitingCloseEmptyUndoGroup,
    ensures
        ({
            let after = exec.completed(result);
            let cause = exec.unwind->0;
            &&& good(result) && cause is Cancelled ==> ends(after, OutcomeView::Cancelled)
            &&& good(result) ==> (cause matches CauseView::Failure(failure) ==> ends(
                after,
                OutcomeView::Failure(failure),
            ))
            &&& !good(result) ==> (after.outcome matches Some(OutcomeView::Failure(told)) && {
                &&& ends(after, OutcomeView::Failure(told))
                &&& told.drawing_outcome is Unknown
                &&& cause is Cancelled ==> told.message == result.message(
                    "could not close the cancelled undo group"@,
                )
                &&& cause matches CauseView::Failure(failure) ==> {
                    &&& told.form_index == failure.form_index
                    &&& told.location == failure.location
                    &&& diagnostic::told_text(
                        told.message,
                        failure.message + "; "@ + result.message(
                            "could not close the expired undo group"@,
                        ),
                    )
                }
            })
        }),
{
    if let Some(CauseView::Failure(failure)) = exec.unwind {
        diagnostic::law_diagnostic_keeps_its_text(
            failure.message + "; "@ + result.message("could not close the expired undo group"@),
        );
    }
}

/// A rollback ends the execution with what led there: a failure with the drawing rolled
/// back, or a cancellation. Where the rollback failed the drawing is in doubt, and that is
/// added.
pub proof fn law_rollback_ends_the_execution(exec: ExecView, result: StepResultView)
    requires
        exec.consistent(),
        exec.phase is AwaitingRollbackUndoGroup,
    ensures
        ({
            let after = exec.completed(result);
            let cause = exec.unwind->0;
            let told = result.message("drawing unwind failed"@);
            &&& good(result) && cause is Cancelled ==> ends(after, OutcomeView::Cancelled)
            &&& !good(result) && cause is Cancelled ==> (after.outcome matches Some(
                OutcomeView::Failure(failure),
            ) && {
                &&& ends(after, OutcomeView::Failure(failure))
                &&& failure.drawing_outcome is Unknown
                &&& failure.message == told
            })
            &&& cause matches CauseView::Failure(first) ==> (after.outcome matches Some(
                OutcomeView::Failure(failure),
            ) && {
                &&& ends(after, OutcomeView::Failure(failure))
                &&& good(result) ==> failure == (FailureView {
                    drawing_outcome: DrawingOutcome::RolledBack,
                    ..first
                })
                &&& !good(result) ==> failure.drawing_outcome is Unknown && failure.form_index
                    == first.form_index && failure.location == first.location
                    && diagnostic::told_text(failure.message, first.message + "; "@ + told)
            })
        }),
{
    if let Some(CauseView::Failure(first)) = exec.unwind {
        diagnostic::law_diagnostic_keeps_its_text(
            first.message + "; "@ + result.message("drawing unwind failed"@),
        );
    }
}

/// A deadline that passes before a form was handed out ends the execution as not started:
/// at once, or by closing the undo group that was asked for.
pub proof fn law_passed_deadline_ends_the_execution(exec: ExecView, message: Seq<char>)
    requires
        exec.consistent(),
        exec.outcome is None,
        exec.unwind is None,
        !exec.cancel_requested,
    ensures
        exec.expirable() <==> !exec.form_handed_off && (exec.phase is BeginUndoGroup
            || exec.phase is AwaitingBeginUndoGroup || exec.phase is BetweenForms),
        exec.expirable() && exec.phase is BeginUndoGroup ==> (exec.expired(message).outcome
            matches Some(OutcomeView::Failure(failure)) && failure.drawing_outcome is NotStarted
            && failure.message == message && ends(
            exec.expired(message),
            OutcomeView::Failure(failure),
        )),
        exec.expirable() && !(exec.phase is BeginUndoGroup) ==> {
            &&& exec.expired(message).outcome is None
            &&& exec.expired(message).unwind matches Some(CauseView::Failure(failure))
                && failure.drawing_outcome is NotStarted && failure.message == message
        },
        exec.expirable() && exec.phase is BetweenForms ==> next_step_is(
            exec.expired(message),
            ExecStepKind::CloseEmptyUndoGroup,
        ),
        exec.expirable() && exec.phase is AwaitingBeginUndoGroup ==> exec.expired(message).phase
            is AwaitingBeginUndoGroup,
{
}

/// A cancellation is taken until the commit is handed out or the undo group is given up,
/// and again where it was taken before.
pub proof fn law_cancellation_is_taken_in_time(exec: ExecView)
    requires
        exec.consistent(),
    ensures
        exec.cancel_requested ==> exec.cancellable(),
        !exec.cancel_requested ==> (exec.cancellable() <==> exec.unwind is None && (
        exec.phase is BeginUndoGroup || exec.phase is AwaitingBeginUndoGroup
            || exec.phase is BetweenForms || exec.phase is AwaitingEvaluateForm)),
{
}

/// An execution that the native side gave up ends as a failure that leaves the drawing in
/// doubt. What was known before is kept, with its place, and the reason is added to it;
/// else the place is that of the form which was being evaluated.
pub proof fn law_abandoned_execution_is_in_doubt(exec: ExecView, result: StepResultView)
    requires
        exec.consistent(),
    ensures
        ({
            let after = exec.abandoned(result);
            let told = result.message("execution could not continue safely"@);
            let first = match exec.outcome {
                Some(OutcomeView::Failure(failure)) => Some(failure),
                Some(_) => None,
                None => match exec.unwind {
                    Some(CauseView::Failure(failure)) => Some(failure),
                    _ => None,
                },
            };
            after.outcome matches Some(OutcomeView::Failure(failure)) && {
                &&& failure.drawing_outcome is Unknown
                &&& first is None ==> failure.message == told
                &&& first is Some ==> {
                    &&& diagnostic::told_text(failure.message, first->0.message + "; "@ + told)
                    &&& failure.form_index == first->0.form_index
                    &&& failure.location == first->0.location
                }
                &&& exec.outcome is None && exec.unwind is None ==> (
                exec.phase matches Phase::AwaitingEvaluateForm { index, line, column } ==> {
                    &&& failure.form_index == Some(index)
                    &&& failure.location matches Some(place) && place.source_name
                        == exec.source_name && place.line == line && place.column == column
                })
                &&& exec.outcome is None && exec.unwind is None && exec.phase
                    is AwaitingEmitEvalValue ==> failure.form_index == Some(1usize)
                    && failure.location == exec.eval_location
                &&& after.phase is Terminal || after.phase is Done
            }
        }),
{
    let told = result.message("execution could not continue safely"@);
    if let Some(OutcomeView::Failure(first)) = exec.outcome {
        diagnostic::law_diagnostic_keeps_its_text(first.message + "; "@ + told);
    }
    if let Some(CauseView::Failure(first)) = exec.unwind {
        diagnostic::law_diagnostic_keeps_its_text(first.message + "; "@ + told);
    }
}

/// Where the bridge of an execution that is over could not be finalized, its drawing is in
/// doubt whatever its outcome was; a failure keeps its place and gains the reason.
pub proof fn law_unfinalized_bridge_leaves_doubt(exec: ExecView, result: StepResultView)
    ensures
        exec.outcome is None ==> exec.finalization_failed(result) == exec,
        exec.outcome is Some ==> (exec.finalization_failed(result).outcome matches Some(
            OutcomeView::Failure(failure),
        ) && {
            let told = result.message("the execution bridge could not be finalized safely"@);
            &&& failure.drawing_outcome is Unknown
            &&& match exec.outcome->0 {
                OutcomeView::Failure(first) => {
                    &&& diagnostic::told_text(failure.message, first.message + "; "@ + told)
                    &&& failure.form_index == first.form_index
                    &&& failure.location == first.location
                },
                _ => failure.message == told && failure.form_index is None
                    && failure.location is None,
            }
        }),
{
    if let Some(OutcomeView::Failure(first)) = exec.outcome {
        diagnostic::law_diagnostic_keeps_its_text(
            first.message + "; "@ + result.message(
                "the execution bridge could not be finalized safely"@,
            ),
        );
    }
}

/// A new execution stands before its undo group, with nothing done; one without forms has
/// succeeded at once.
pub proof fn law_new_execution_has_done_nothing(
    mode: ExecMode,
    source_name: Seq<char>,
    source: Seq<u8>,
    forms: Seq<Result<FormSpan, ScanError>>,
    form_count: usize,
)
    ensures
        ({
            let fresh = ExecView::fresh(mode, source_name, source, forms, form_count);
            &&& fresh.mode == mode
            &&& fresh.source_name == source_name
            &&& fresh.source == source
            &&& fresh.forms == forms
            &&& fresh.next_form == 0
            &&& !fresh.form_handed_off
            &&& !fresh.value_retained
            &&& !fresh.cancel_requested
            &&& fresh.unwind is None
            &&& fresh.output.finished <==> form_count == 0
            &&& fresh.output.text().len() == 0
            &&& fresh.bridge.open_kind is None
            &&& form_count == 0 ==> ends(fresh, OutcomeView::Success)
            &&& form_count > 0 ==> fresh.outcome is None && next_step_is(
                fresh,
                ExecStepKind::BeginUndoGroup,
            )
        }),
{
}

} // verus!
