//! What an execution of a batch does next, and what it says in the end.
use vstd::prelude::*;
use vstd::utf8::*;

use super::{
    DrawingOutcome, ExecutionView, FailureView, OutcomeView, Phase, StepKind, StepResult,
    ValidationError,
};
use crate::exec::source::{FormSpan, ScanError};
use crate::text;

verus! {

/// The step that is handed out next is of a kind.
pub open spec fn next_step_is(execution: ExecutionView, kind: StepKind) -> bool {
    execution.resolved().step().kind == kind
}

/// The execution is over with an outcome.
pub open spec fn ends(after: ExecutionView, outcome: OutcomeView) -> bool {
    &&& after.outcome == Some(outcome)
    &&& after.failure is None
    &&& next_step_is(after, StepKind::Done)
}

/// The undo group is rolled back for a failure; there is no outcome yet.
pub open spec fn gives_up(after: ExecutionView, failure: FailureView) -> bool {
    &&& after.failure == Some(failure)
    &&& after.outcome is None
    &&& next_step_is(after, StepKind::Rollback)
}

/// A new execution has done nothing and opens the undo group first; one without forms has
/// succeeded.
pub proof fn law_new_execution_has_done_nothing(
    source_name: Seq<char>,
    source: Seq<char>,
    forms: Seq<Result<FormSpan, ScanError>>,
    form_count: usize,
)
    ensures
        ({
            let fresh = ExecutionView::fresh(source_name, source, forms, form_count);
            &&& fresh.next_form == 0
            &&& fresh.forms == forms
            &&& fresh.source == source
            &&& fresh.source_name == source_name
            &&& fresh.failure is None
            &&& form_count == 0 ==> ends(fresh, OutcomeView::Success)
            &&& form_count > 0 ==> fresh.outcome is None && next_step_is(fresh, StepKind::Begin)
                && fresh.stepped().phase is AwaitingBegin
        }),
{
}

/// Between two forms the next is handed out, with its exact text and its place; where none
/// is left the undo group is committed; what the scanner found wrong gives the group up.
pub proof fn law_next_form_is_handed_out(execution: ExecutionView)
    requires
        execution.consistent(),
        execution.phase is BetweenForms,
        execution.next_form < usize::MAX,
    ensures
        execution.next_form == execution.forms.len() ==> next_step_is(
            execution,
            StepKind::Commit,
        ) && execution.stepped().phase is AwaitingCommit,
        execution.next_form < execution.forms.len() ==> match execution.forms[execution.next_form] {
            Ok(span) => {
                &&& next_step_is(execution, StepKind::Form)
                &&& execution.resolved().step().source == decode_utf8(
                    encode_utf8(execution.source).subrange(
                        span.byte_start as int,
                        span.byte_end as int,
                    ),
                )
                &&& execution.stepped().next_form == execution.next_form + 1
                &&& execution.stepped().phase matches Phase::AwaitingForm { index, line, column }
                    && index == execution.next_form + 1 && line == span.line && column
                    == span.column
            },
            Err(error) => execution.resolved().failure matches Some(failure) && {
                &&& gives_up(execution.resolved(), failure)
                &&& failure.message == error.message@
                &&& failure.form_index is None
                &&& failure.location matches Some(place) && place.source_name
                    == execution.source_name && place.line == error.line && place.column
                    == error.column
            },
        },
{
}

/// A step that succeeded is followed by the next: the open group by its forms, a form by
/// the next one, and the commit by the success of the whole.
pub proof fn law_success_is_followed(execution: ExecutionView, result: StepResult)
    requires
        execution.consistent(),
        execution.outcome is None,
        result.kind is Success,
    ensures
        execution.phase is AwaitingBegin || execution.phase is AwaitingForm
            ==> execution.completed(result) == (ExecutionView {
            phase: Phase::BetweenForms,
            ..execution
        }),
        execution.phase is AwaitingCommit ==> ends(
            execution.completed(result),
            OutcomeView::Success,
        ),
        execution.phase is AwaitingRollback ==> (execution.completed(result).outcome matches Some(
            OutcomeView::Failure(failure),
        ) && ends(execution.completed(result), OutcomeView::Failure(failure)) && failure == (
        FailureView { drawing_outcome: DrawingOutcome::RolledBack, ..execution.failure->0 })),
{
}

/// A step that failed is followed by no other but the rollback: a group that could not be
/// opened ends the execution before anything was started, and a form or a commit that
/// failed gives the group up. Where the rollback fails too, the drawing is in doubt, and
/// that is added to the failure.
pub proof fn law_failure_is_followed(execution: ExecutionView, result: StepResult)
    requires
        execution.consistent(),
        execution.outcome is None,
        !(result.kind is Success),
    ensures
        ({
            let after = execution.completed(result);
            &&& execution.phase is AwaitingBegin ==> (after.outcome matches Some(
                OutcomeView::Failure(failure),
            ) && ends(after, OutcomeView::Failure(failure)) && failure.drawing_outcome is NotStarted
                && failure.message == result.message("could not begin the undo group"@)
                && failure.form_index is None && failure.location is None)
            &&& execution.phase matches Phase::AwaitingForm { index, line, column } ==> (
            after.failure matches Some(failure) && gives_up(after, failure) && failure.message
                == result.message("form evaluation failed"@) && failure.form_index == Some(index)
                && (failure.location matches Some(place) && place.source_name
                == execution.source_name && place.line == line && place.column == column))
            &&& execution.phase is AwaitingCommit ==> (after.failure matches Some(failure)
                && gives_up(after, failure) && failure.message == result.message(
                "could not finish the undo group"@,
            ) && failure.form_index is None && failure.location is None)
            &&& execution.phase is AwaitingRollback ==> (after.outcome matches Some(
                OutcomeView::Failure(failure),
            ) && {
                let first = execution.failure->0;
                &&& ends(after, OutcomeView::Failure(failure))
                &&& failure.drawing_outcome is Unknown
                &&& failure.message == first.message + "; "@ + result.message(
                    "drawing rollback failed"@,
                )
                &&& failure.form_index == first.form_index
                &&& failure.location == first.location
            })
        }),
{
}

/// What is said of a step: its own detail where it has one, else what could not be done with
/// the number that the native side gave.
pub proof fn law_step_messages(result: StepResult, fallback: Seq<char>)
    ensures
        ({
            let message = result.message(fallback);
            let plain = result.detail@.len() == 0;
            let errno = result.kind is LispError && result.lisp_errno != 0;
            let native = result.native_status != 0 && !errno;
            &&& !plain ==> message == result.detail@
            &&& plain && errno ==> message == fallback + " (ERRNO "@ + text::signed_decimal(
                result.lisp_errno as int,
            ) + ")"@
            &&& plain && native ==> message == fallback + " (native status "@
                + text::signed_decimal(result.native_status as int) + ")"@
            &&& plain && !errno && !native ==> message == fallback
        }),
{
}

/// An execution that was given up, or whose lease could not be released, ends as a failure
/// that leaves the drawing in doubt. A failure that was known keeps its place and gains the
/// reason; else the place is that of the form which was being evaluated.
pub proof fn law_abandoned_execution_is_in_doubt(execution: ExecutionView, result: StepResult)
    requires
        execution.consistent(),
    ensures
        ({
            let told = result.message("execution could not continue safely"@);
            let held = result.message("the native execution lease could not be released"@);
            let first = match execution.outcome {
                Some(OutcomeView::Failure(failure)) => Some(failure),
                Some(OutcomeView::Success) => None,
                None => execution.failure,
            };
            &&& execution.abandoned(result).outcome matches Some(OutcomeView::Failure(failure)) && {
                &&& failure.drawing_outcome is Unknown
                &&& first is None ==> failure.message == told
                &&& first is Some ==> failure.message == first->0.message + "; "@ + told
                    && failure.form_index == first->0.form_index && failure.location
                    == first->0.location
                &&& execution.outcome is None && execution.failure is None ==> (
                execution.phase matches Phase::AwaitingForm { index, line, column } ==> {
                    &&& failure.form_index == Some(index)
                    &&& failure.location matches Some(place) && place.line == line
                        && place.column == column && place.source_name == execution.source_name
                })
            }
            &&& execution.outcome is None ==> execution.release_failed(result) == execution
            &&& execution.outcome is Some ==> (execution.release_failed(result).outcome matches Some(
                OutcomeView::Failure(failure),
            ) && failure.drawing_outcome is Unknown && (first is None ==> failure.message == held)
                && (first is Some ==> failure.message == first->0.message + "; "@ + held
                && failure.form_index == first->0.form_index))
        }),
{
}

/// A source is refused where it is too long without its mark or holds a null character, in
/// this order, and then for what the scanner found.
pub proof fn law_source_faults(
    source: Seq<char>,
    marked: bool,
    form_count: Result<usize, ScanError>,
)
    requires
        !marked ==> source.len() == 0 || source[0] as int != 0xfeff,
    ensures
        ({
            let whole = if marked {
                seq!['\u{feff}'] + source
            } else {
                source
            };
            let fault = super::validation_fault(whole, form_count);
            let long = text::byte_len(source) > 4194304;
            let null = source.contains('\0');
            &&& super::without_mark(whole) == source
            &&& long <==> fault == Some(ValidationError::SourceTooLarge)
            &&& !long && null <==> fault == Some(ValidationError::NullCharacter)
            &&& !long && !null ==> match form_count {
                Err(found) => fault == Some(ValidationError::Scan(found)),
                Ok(_) => fault is None,
            }
        }),
{
    let whole = if marked {
        seq!['\u{feff}'] + source
    } else {
        source
    };
    assert(super::without_mark(whole) =~= source);
}

} // verus!
