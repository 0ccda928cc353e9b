//! How jobs wait, and what ends the wait.
use vstd::prelude::*;

use super::error::{ErrorView, NativeFailureView};
use super::job::{JobView, OperationOutcomeView, OperationView, OutputEnd};
use super::model;
use super::model::{Refusal, SchedulerView, SubmissionView};
use super::operations;
use crate::documents::{DocumentView, NativeDocumentKey};
use crate::exec::diagnostic;
use crate::exec::io::ValueOutputKind;
use crate::exec::lisp::StepResultView;
use crate::exec::outcome::{DrawingOutcome, FailureView, OutcomeView};
use crate::exec::state::ExecView;
use crate::exec::value::port::{OutputPortMode, PortView};
use crate::execution::output::OutputView;
use crate::naming;
use crate::native::{
    ActionResultView, NativeActionResultKind, NativeExecutionFinalizationObservation,
};
use crate::registry::EntryView;

verus! {

/// The number of executions among some jobs.
pub open spec fn executions(jobs: Seq<JobView>) -> int
    decreases jobs.len(),
{
    if jobs.len() == 0 {
        0
    } else {
        executions(jobs.drop_last()) + if jobs.last().operation is Execute {
            1int
        } else {
            0
        }
    }
}

/// The bytes of their sources.
pub open spec fn source_bytes(jobs: Seq<JobView>) -> int
    decreases jobs.len(),
{
    if jobs.len() == 0 {
        0
    } else {
        source_bytes(jobs.drop_last()) + match jobs.last().operation {
            OperationView::Execute { execution, .. } => execution.source.len() as int,
            _ => 0,
        }
    }
}

/// The jobs that wait or run.
pub open spec fn jobs_of(view: SchedulerView) -> Seq<JobView> {
    match view.active {
        Some(active) => view.pending.push(active),
        None => view.pending,
    }
}

proof fn lemma_counts(jobs: Seq<JobView>)
    ensures
        model::total(jobs, model::execution_measure()) == executions(jobs),
        model::total(jobs, model::source_measure()) == source_bytes(jobs),
    decreases jobs.len(),
{
    if jobs.len() > 0 {
        lemma_counts(jobs.drop_last());
    }
}

/// No more than 32 jobs wait or run, no more than 8 of them executions, with no more than
/// 32 MiB of sources in all. What would be more is refused, and nothing else is for want of
/// room; an execution that has its outcome already takes none.
pub proof fn law_room_is_limited(
    view: SchedulerView,
    operation: OperationView,
    execution: ExecView,
    dwg: bool,
)
    requires
        !view.stopping,
        !view.quarantined,
    ensures
        ({
            let jobs = jobs_of(view);
            let full = SubmissionView::Done(
                Err::<OperationOutcomeView, ErrorView>(ErrorView::MutationCapacity),
            );
            let crowded = executions(jobs) >= 8 || source_bytes(jobs) + execution.source.len()
                > 33554432;
            let refusal = view.refusal(execution);
            &&& jobs.len() >= 32 <==> view.submitted(operation, dwg).1 == full
            &&& jobs.len() >= 32 ==> view.submitted(operation, dwg).0 == view
            &&& execution.outcome is Some ==> refusal is None
            &&& execution.outcome is None ==> {
                &&& refusal == Some(ErrorView::MutationCapacity) <==> jobs.len() >= 32
                &&& refusal == Some(ErrorView::ExecutionCapacity) <==> jobs.len() < 32 && crowded
                &&& refusal is None <==> jobs.len() < 32 && !crowded
            }
        }),
{
    lemma_counts(view.pending);
    if let Some(active) = view.active {
        assert(view.pending.push(active).drop_last() =~= view.pending);
    }
}

/// An execution that can still be cancelled is: one that runs is told so and its output
/// ends, one that waits is over at once. A cancellation that comes too late, or for nothing
/// that is known, changes nothing.
pub proof fn law_cancellation_is_answered(view: SchedulerView, job_id: u64, place: int)
    requires
        forall|i: int, j: int|
            #![trigger view.pending[i], view.pending[j]]
            0 <= i < j < view.pending.len() ==> view.pending[i].job_id != view.pending[j].job_id,
    ensures
        ({
            let (after, told) = view.cancelled(job_id);
            let runs = view.active is Some && view.active->0.job_id == job_id;
            let waits = 0 <= place < view.pending.len() && view.pending[place].job_id == job_id;
            &&& runs && !(view.active->0.operation is Execute) ==> told.result is NotFound
            &&& runs ==> (view.active->0.operation matches OperationView::Execute {
                execution,
                ..
            } ==> {
                &&& told.settled is None
                &&& told.result is Accepted <==> execution.cancellable()
                &&& told.result is TooLate <==> !execution.cancellable()
                &&& told.result is Accepted ==> {
                    &&& after.active is Some
                    &&& after.active->0.job_id == job_id
                    &&& after.active->0.operation matches OperationView::Execute {
                        execution: cancelled,
                        ..
                    } && cancelled.cancel_requested && cancelled.output.cancelled
                        && cancelled.phase == execution.phase
                }
            })
            &&& !runs && waits && !(view.pending[place].operation is Execute)
                ==> told.result is NotFound
            &&& !runs && waits ==> (view.pending[place].operation matches OperationView::Execute {
                execution,
                ..
            } ==> {
                &&& told.result is Accepted <==> execution.phase is BeginUndoGroup
                &&& told.result is TooLate <==> !(execution.phase is BeginUndoGroup)
                &&& told.result is Accepted ==> {
                    &&& after.pending == view.pending.remove(place)
                    &&& after.active == view.active
                    &&& told.settled is Some
                    &&& told.settled->0.job_id == job_id
                    &&& told.settled->0.reservation == view.pending[place].reservation
                    &&& told.settled->0.output is Some && told.settled->0.output->0.cancelled
                    &&& told.should_wake <==> view.active is None && !view.wake_pending
                        && !view.stopping && !view.quarantined && after.pending.len() > 0
                        && !after.pending[0].waiting_for_readiness
                    &&& told.settled->0.outcome == Ok::<OperationOutcomeView, ErrorView>(
                        OperationOutcomeView::Execution(OutcomeView::Cancelled),
                    )
                }
            })
            &&& !runs && (forall|i: int|
                0 <= i < view.pending.len() ==> (#[trigger] view.pending[i]).job_id != job_id)
                ==> told.result is NotFound
            &&& !(told.result is Accepted) ==> after == view && told.settled is None
                && !told.should_wake
        }),
{
    model::lemma_queued_position(view.pending, job_id);
    if let Some(found) = model::queued_position(view.pending, job_id) {
        if 0 <= place < view.pending.len() && view.pending[place].job_id == job_id {
            if found < place {
                assert(view.pending[found].job_id != view.pending[place].job_id);
            } else if place < found {
                assert(view.pending[place].job_id != view.pending[found].job_id);
            }
        }
    }
}

/// An execution that did not start in time: its deadline has passed, no form of it was
/// handed out, it has no outcome and nobody cancelled it.
pub open spec fn late(job: JobView, now: u64) -> bool {
    &&& job.start_deadline matches Some(deadline) && now >= deadline
    &&& job.operation matches OperationView::Execute { execution, .. } && {
        &&& !execution.form_handed_off
        &&& execution.outcome is None
        &&& !execution.cancel_requested
        &&& execution.unwind is None
        &&& execution.phase is BeginUndoGroup || execution.phase is AwaitingBeginUndoGroup
            || execution.phase is BetweenForms
    }
}

/// When the clock is looked at, the executions that wait and are late are taken out, and
/// every other job stays, in its order.
pub proof fn law_late_executions_are_taken_out(view: SchedulerView, now: u64)
    ensures
        view.at(now).pending.len() == model::remaining(view.pending, now).len(),
        forall|i: int|
            0 <= i < view.pending.len() && !late(#[trigger] view.pending[i], now)
                ==> model::remaining(view.pending, now).contains(view.pending[i]),
        forall|i: int|
            0 <= i < model::remaining(view.pending, now).len() ==> !late(
                #[trigger] model::remaining(view.pending, now)[i],
                now,
            ),
        (forall|i: int| 0 <= i < view.pending.len() ==> !late(#[trigger] view.pending[i], now))
            ==> model::remaining(view.pending, now) == view.pending,
        view.at(now).documents == view.documents,
{
    lemma_remaining(view.pending, now);
}

proof fn lemma_remaining(jobs: Seq<JobView>, now: u64)
    ensures
        forall|i: int|
            0 <= i < jobs.len() && !late(#[trigger] jobs[i], now) ==> model::remaining(
                jobs,
                now,
            ).contains(jobs[i]),
        forall|i: int|
            0 <= i < model::remaining(jobs, now).len() ==> !late(
                #[trigger] model::remaining(jobs, now)[i],
                now,
            ),
        (forall|i: int| 0 <= i < jobs.len() ==> !late(#[trigger] jobs[i], now))
            ==> model::remaining(jobs, now) == jobs,
    decreases jobs.len(),
{
    if jobs.len() > 0 {
        let front = jobs.drop_last();
        let before = model::remaining(front, now);
        let after = model::remaining(jobs, now);
        lemma_remaining(front, now);
        assert(jobs.last().lapses(now) <==> late(jobs[jobs.len() - 1], now));
        assert forall|i: int| 0 <= i < jobs.len() && !late(
            #[trigger] jobs[i],
            now,
        ) implies after.contains(jobs[i]) by {
            if i < front.len() {
                assert(front[i] == jobs[i]);
                let k = choose|k: int| 0 <= k < before.len() && before[k] == front[i];
                assert(after[k] == jobs[i]);
            } else {
                assert(after[before.len() as int] == jobs[i]);
            }
        }
        assert forall|i: int| 0 <= i < after.len() implies !late(#[trigger] after[i], now) by {
            if i < before.len() {
                assert(after[i] == before[i]);
            } else {
                assert(after[i] == jobs[jobs.len() - 1]);
            }
        }
        if forall|i: int| 0 <= i < jobs.len() ==> !late(#[trigger] jobs[i], now) {
            assert forall|i: int| 0 <= i < front.len() implies !late(#[trigger] front[i], now) by {
                assert(front[i] == jobs[i]);
            }
            assert(!late(jobs[jobs.len() - 1], now));
            assert(after =~= jobs);
        }
    }
}

/// Whoever waits for an execution that was late from the start is told that nothing was
/// started, and why; what waits in time is not settled.
pub proof fn law_late_executions_are_told(
    jobs: Seq<JobView>,
    now: u64,
    documents: Seq<EntryView<DocumentView>>,
    ignore_case: bool,
)
    ensures
        jobs.len() == 0 ==> model::lapsed(jobs, now, documents, ignore_case).len() == 0,
        jobs.len() > 0 && !late(jobs.last(), now) ==> model::lapsed(
            jobs,
            now,
            documents,
            ignore_case,
        ) == model::lapsed(jobs.drop_last(), now, documents, ignore_case),
        jobs.len() > 0 && late(jobs.last(), now) ==> {
            let settled = model::lapsed(jobs, now, documents, ignore_case);
            &&& settled.len() > 0
            &&& settled.drop_last() == model::lapsed(
                jobs.drop_last(),
                now,
                documents,
                ignore_case,
            )
            &&& settled.last().job_id == jobs.last().job_id
            &&& settled.last().reservation == jobs.last().reservation
            &&& settled.last().output is Some && settled.last().output->0.finished
            &&& jobs.last().operation->execution.phase is BeginUndoGroup ==> (
            settled.last().outcome matches Ok(
                OperationOutcomeView::Execution(OutcomeView::Failure(failure)),
            ) && failure.drawing_outcome is NotStarted && failure.message
                == "execution did not start within 5 seconds"@)
        },
{
    if jobs.len() > 0 {
        let front = jobs.drop_last();
        assert(jobs.last().lapses(now) <==> late(jobs.last(), now));
        if late(jobs.last(), now) {
            let settled = model::lapsed(jobs, now, documents, ignore_case);
            assert(settled.drop_last() =~= model::lapsed(front, now, documents, ignore_case));
        }
    }
}

/// An execution that has not begun when its document is busy is put off: it goes back to
/// the head of the queue as it was and waits, first for 50 milliseconds and then for twice
/// as long each time, up to half a second. Nobody is told anything.
pub proof fn law_busy_document_is_tried_again(
    view: SchedulerView,
    result: ActionResultView,
    now: u64,
)
    requires
        view.active is Some,
        view.active->0.operation is Execute,
        result.kind is NotQuiescent,
        50 <= view.active->0.retry_delay <= 500,
        now + 500 <= u64::MAX,
    ensures
        ({
            let active = view.active->0;
            let execution = active.operation->execution;
            let (after, settled) = view.completed(active.job_id, result, false, now);
            let delay = active.retry_delay;
            let cancelled = execution.cancel_requested && execution.phase is BeginUndoGroup;
            let ready = !execution.form_handed_off && execution.outcome is None;
            &&& ready && !late(active, now) && !cancelled ==> {
                &&& settled.len() == 0
                &&& after.active is None
                &&& after.pending.len() == view.pending.len() + 1
                &&& after.pending.skip(1) == view.pending
                &&& after.pending[0].job_id == active.job_id
                &&& after.pending[0].operation == active.operation
                &&& after.pending[0].start_deadline == active.start_deadline
                &&& after.pending[0].reservation == active.reservation
                &&& after.pending[0].waiting_for_readiness
                &&& after.pending[0].retry_at == Some((now + delay) as u64)
                &&& after.pending[0].retry_delay as int == if 2 * delay < 500 {
                    2 * delay
                } else {
                    500
                }
            }
            &&& ready && cancelled ==> {
                &&& after.active is None
                &&& settled.len() == 1
                &&& settled[0].outcome == Ok::<OperationOutcomeView, ErrorView>(
                    OperationOutcomeView::Execution(OutcomeView::Cancelled),
                )
            }
            &&& ready && late(active, now) && execution.phase is BeginUndoGroup ==> {
                &&& after.active is None
                &&& settled.len() == 1
                &&& settled[0].outcome matches Ok(
                    OperationOutcomeView::Execution(OutcomeView::Failure(failure)),
                ) && failure.drawing_outcome is NotStarted
            }
        }),
{
    let active = view.active->0;
    assert(active.lapses(now) <==> late(active, now));
    assert((seq![active.deferred(now)] + view.pending).skip(1) =~= view.pending);
}

/// A job that is put off waits until its time has come, and no longer; a word that its
/// document may be ready ends the wait at once, and the next pause is short again.
pub proof fn law_put_off_job_is_tried_in_time(view: SchedulerView, now: u64)
    requires
        view.pending.len() > 0,
    ensures
        ({
            let first = view.pending[0];
            let after = view.ready_at(now);
            let told = view.readied();
            &&& first.waiting_for_readiness && first.retry_at is Some && first.retry_at->0 <= now
                ==> !after.pending[0].waiting_for_readiness && after.pending[0].operation
                == first.operation && after.pending[0].job_id == first.job_id
                && after.pending[0].retry_delay == first.retry_delay
            &&& first.waiting_for_readiness && !(first.retry_at is Some && first.retry_at->0
                <= now) ==> after == view
            &&& !first.waiting_for_readiness ==> after == view
            &&& !told.pending[0].waiting_for_readiness
            &&& told.pending[0].retry_at is None
            &&& told.pending[0].retry_delay == 50
            &&& told.pending[0].job_id == first.job_id
            &&& told.pending[0].operation == first.operation
            &&& after.pending.skip(1) == view.pending.skip(1)
            &&& told.pending.skip(1) == view.pending.skip(1)
        }),
{
    assert(view.ready_at(now).pending.skip(1) =~= view.pending.skip(1));
    assert(view.readied().pending.skip(1) =~= view.pending.skip(1));
}

/// The clock is looked at when the deadline of an execution passes that may still be late,
/// and when the job that is put off is to be tried again; and at no other time.
pub proof fn law_timers(view: SchedulerView, time: u64)
    ensures
        view.timer(time) <==> {
            ||| exists|i: int|
                0 <= i < view.pending.len() && (#[trigger] view.pending[i]).start_deadline == Some(
                    time,
                ) && may_be_late(view.pending[i])
            ||| view.active is Some && view.active->0.start_deadline == Some(time) && may_be_late(
                view.active->0,
            )
            ||| view.pending.len() > 0 && view.pending[0].waiting_for_readiness
                && view.pending[0].retry_at == Some(time)
        },
{
    if exists|i: int| #[trigger] view.start_timer(i, time) {
        let i = choose|i: int| #[trigger] view.start_timer(i, time);
        assert(view.pending[i].start_deadline == Some(time) && may_be_late(view.pending[i]));
    }
    if exists|i: int|
        0 <= i < view.pending.len() && (#[trigger] view.pending[i]).start_deadline == Some(time)
            && may_be_late(view.pending[i]) {
        let i = choose|i: int|
            0 <= i < view.pending.len() && (#[trigger] view.pending[i]).start_deadline == Some(
                time,
            ) && may_be_late(view.pending[i]);
        assert(view.start_timer(i, time));
    }
}

/// No form was handed out yet, and neither an outcome, a cancellation nor a failure keeps
/// the deadline from mattering.
pub open spec fn may_be_late(job: JobView) -> bool {
    job.operation matches OperationView::Execute { execution, .. } && !execution.form_handed_off
        && execution.outcome is None && !execution.cancel_requested && execution.unwind is None
}

/// The native side is woken where there is work that it can take at once: nothing runs, the
/// first job is not put off, it was not woken already, and the plugin is in order.
pub proof fn law_native_side_is_woken_for_work(view: SchedulerView, now: u64, dwg: bool)
    ensures
        view.wakes() <==> view.active is None && view.pending.len() > 0
            && !view.pending[0].waiting_for_readiness && !view.wake_pending && !view.stopping
            && !view.quarantined,
        view.wakes() ==> view.woken().wake_pending,
        view.woken().pending == view.pending,
        view.woken().active == view.active,
        !view.taken(now, dwg).0.wake_pending,
        view.stopping || view.quarantined ==> view.taken(now, dwg).1.action.kind is Idle
            && view.taken(now, dwg).0.pending == view.pending,
{
}

/// The results after which the native state is in doubt.
pub proof fn law_doubtful_results(
    kind: NativeActionResultKind,
    observation: NativeExecutionFinalizationObservation,
)
    ensures
        model::requires_quarantine(kind) <==> kind is DocumentContextRestoreFailed || kind
            is ExecutionBridgeFinalizationFailed || kind is ExecutionBridgeSymbolsClearFailed,
        ({
            let classified = model::classified_kind(kind, observation);
            let symbols = observation.bridge_symbols_may_be_retained
                || observation.terminal_cleanup_failed;
            let more = observation.undo_group_may_be_open || observation.staged_form_may_be_retained
                || observation.value_writer_active;
            &&& !symbols && !more ==> classified == kind
            &&& kind is DocumentContextRestoreFailed ==> classified == kind
            &&& kind is ExecutionBridgeSymbolsClearFailed && !more ==> classified == kind
            &&& (symbols || more) && !(kind is DocumentContextRestoreFailed) && !(
            kind is ExecutionBridgeSymbolsClearFailed && !more) ==> classified
                is ExecutionBridgeFinalizationFailed
            &&& symbols || more ==> model::requires_quarantine(classified)
        }),
{
}

/// A plugin that stops turns away every job that waits, each with that reason, takes no
/// work any more, and cancels the execution that runs where that can still be cancelled;
/// the output of that is gone.
pub proof fn law_stop_turns_jobs_away(view: SchedulerView, refusal: Refusal, place: int)
    ensures
        view.stopped().stopping,
        view.stopped().pending.len() == 0,
        view.stopped().documents == view.documents,
        view.active matches Some(active) ==> (active.operation matches OperationView::Execute {
            execution,
            ..
        } ==> (view.stopped().active->0.operation matches OperationView::Execute {
            execution: stopped,
            ..
        } && {
            &&& stopped.cancel_requested <==> execution.cancellable()
            &&& stopped.phase == execution.phase
            &&& stopped.output.stopped
            &&& stopped.output.ready.len() == 0
            &&& stopped.output.pending.len() == 0
        })),
        view.active matches Some(active) ==> (!(active.operation is Execute)
            ==> view.stopped().active == view.active),
        0 <= place < view.pending.len() ==> {
            let told = model::turned_away(view.pending, refusal);
            &&& told.len() == view.pending.len()
            &&& told[place].job_id == view.pending[place].job_id
            &&& told[place].reservation == view.pending[place].reservation
            &&& told[place].output is Some <==> view.pending[place].operation is Execute
            &&& told[place].output is Some ==> told[place].output->0.stopped
            &&& refusal is PluginStopping ==> told[place].outcome == Err::<
                OperationOutcomeView,
                ErrorView,
            >(ErrorView::PluginStopping)
            &&& refusal is NativeMutationStateUnknown ==> told[place].outcome == Err::<
                OperationOutcomeView,
                ErrorView,
            >(ErrorView::NativeMutationStateUnknown)
            &&& refusal matches Refusal::ScheduleFailed(status) ==> told[place].outcome == Err::<
                OperationOutcomeView,
                ErrorView,
            >(ErrorView::ScheduleFailed(status))
        },
{
}

/// What whoever waits for an execution is told where the native side failed: the error
/// where there is no outcome yet, and the outcome itself where there is, unless the native
/// state is in doubt. Then success and cancellation become a failure that leaves the drawing
/// in doubt, and a failure gains the reason.
pub proof fn law_native_failure_of_an_execution_is_told(
    view: SchedulerView,
    id: Seq<char>,
    execution: ExecView,
    result: ActionResultView,
    quarantine: bool,
    now: u64,
)
    requires
        operations::working_on(view, OperationView::Execute { id, execution }),
        !(result.kind is Success),
        !(result.kind is NotQuiescent),
    ensures
        ({
            let failure = NativeFailureView {
                status: result.native_status,
                detail: diagnostic::bounded_text(result.native_detail, false),
            };
            let told = |outcome: Result<OperationOutcomeView, ErrorView>|
                operations::told(view, result, quarantine, now, outcome);
            let doubt = result.kind is DocumentContextRestoreFailed || result.kind
                is ExecutionBridgeFinalizationFailed;
            let reason = (StepResultView {
                detail: failure.detail,
                ..StepResultView::native_error(result.native_status)
            }).message("the execution bridge could not be finalized safely"@);
            &&& execution.outcome is None ==> {
                &&& result.kind is DocumentGone ==> told(Err(ErrorView::DocumentGone))
                &&& result.kind is DocumentGenerationChanged ==> told(
                    Err(ErrorView::DocumentGenerationChanged),
                )
                &&& result.kind is LockFailed ==> told(Err(ErrorView::LockFailed(failure)))
                &&& result.kind is ReadOnly ==> told(Err(ErrorView::ReadOnly(id)))
                &&& result.kind is UndoDisabled ==> told(Err(ErrorView::UndoDisabled))
                &&& result.kind is DocumentContextFailed ==> told(
                    Err(ErrorView::DocumentContextFailed(failure)),
                )
                &&& result.kind is DocumentContextRestoreFailed ==> told(
                    Err(ErrorView::DocumentContextRestoreFailed(failure)),
                )
                &&& result.kind is ExecutionBridgeFinalizationFailed ==> told(
                    Err(ErrorView::ExecutionBridgeFinalizationFailed(failure)),
                )
                &&& result.kind is ExecutionBridgeSymbolsClearFailed ==> told(
                    Err(ErrorView::ExecutionBridgeSymbolsClearFailed(failure)),
                )
                &&& result.kind is ExecutionBridgeFailed ==> told(
                    Err(ErrorView::ExecutionBridgeFailed(failure)),
                )
            }
            &&& execution.outcome matches Some(outcome) ==> {
                &&& !doubt && !(result.kind is ExecutionBridgeFailed) && (outcome is Failure
                    || !(result.kind is ExecutionBridgeSymbolsClearFailed)) ==> told(
                    Ok(OperationOutcomeView::Execution(outcome)),
                )
                &&& result.kind is ExecutionBridgeFailed ==> told(
                    Err(ErrorView::ExecutionBridgeFailed(failure)),
                )
                &&& result.kind is ExecutionBridgeSymbolsClearFailed && !(outcome is Failure)
                    ==> told(Err(ErrorView::ExecutionBridgeSymbolsClearFailed(failure)))
                &&& doubt && !(outcome is Failure) ==> told(
                    Ok(
                        OperationOutcomeView::Execution(
                            OutcomeView::Failure(
                                FailureView {
                                    message: reason,
                                    form_index: None,
                                    location: None,
                                    drawing_outcome: DrawingOutcome::Unknown,
                                    drawing_error: None,
                                },
                            ),
                        ),
                    ),
                )
                &&& doubt ==> (outcome matches OutcomeView::Failure(first) ==> told(
                    Ok(
                        OperationOutcomeView::Execution(
                            OutcomeView::Failure(
                                FailureView {
                                    message: diagnostic::bounded_text(
                                        first.message + "; "@ + reason,
                                        false,
                                    ),
                                    drawing_outcome: DrawingOutcome::Unknown,
                                    ..first
                                },
                            ),
                        ),
                    ),
                ))
            }
        }),
{
}

/// The output of an execution ends in the way in which the execution did: what had entered
/// is still read after success, failure or cancellation, and nothing is after a stop.
pub proof fn law_output_ends_with_its_execution(output: OutputView)
    ensures
        ({
            let finished = OutputEnd::Finished.closed(output);
            let cancelled = OutputEnd::Cancelled.closed(output);
            let stopped = OutputEnd::Stopped.closed(output);
            &&& finished.finished && cancelled.cancelled && stopped.stopped
            &&& finished.cancelled == output.cancelled && finished.stopped == output.stopped
            &&& cancelled.finished == output.finished && cancelled.stopped == output.stopped
            &&& stopped.finished == output.finished && stopped.cancelled == output.cancelled
            &&& finished.disconnected == output.disconnected
            &&& cancelled.disconnected == output.disconnected
            &&& stopped.disconnected == output.disconnected
            &&& finished.ready == cancelled.ready
            &&& finished.pending.len() == 0 && finished.backlog.len() == 0
            &&& cancelled.pending.len() == 0 && cancelled.backlog.len() == 0
            &&& stopped.ready.len() == 0 && stopped.pending.len() == 0
                && stopped.backlog.len() == 0
        }),
{
}

/// The output of an execution is that of the job with its identifier, wherever that stands:
/// the one that runs, or one that waits. Changing it there changes nothing else.
pub proof fn law_output_belongs_to_its_job(
    view: SchedulerView,
    job_id: u64,
    place: int,
    changed: ExecView,
)
    requires
        forall|i: int, j: int|
            #![trigger view.pending[i], view.pending[j]]
            0 <= i < j < view.pending.len() ==> view.pending[i].job_id != view.pending[j].job_id,
    ensures
        ({
            let found = super::admitted_execution(view, job_id);
            let runs = view.active is Some && view.active->0.job_id == job_id;
            let waits = 0 <= place < view.pending.len() && view.pending[place].job_id == job_id;
            let after = super::with_admitted(view, job_id, changed);
            &&& runs ==> (view.active->0.operation matches OperationView::Execute {
                id,
                execution,
            } ==> {
                &&& found == Some(execution)
                &&& after.pending == view.pending
                &&& after.active is Some
                &&& after.active->0.job_id == job_id
                &&& after.active->0.operation == (OperationView::Execute { id, execution: changed })
            })
            &&& !runs && waits ==> (view.pending[place].operation matches OperationView::Execute {
                id,
                execution,
            } ==> {
                &&& found == Some(execution)
                &&& after.active == view.active
                &&& after.pending.len() == view.pending.len()
                &&& after.pending[place].job_id == job_id
                &&& after.pending[place].operation == (OperationView::Execute {
                    id,
                    execution: changed,
                })
                &&& forall|i: int|
                    0 <= i < view.pending.len() && i != place ==> #[trigger] after.pending[i]
                        == view.pending[i]
            })
            &&& !runs && (forall|i: int|
                0 <= i < view.pending.len() ==> (#[trigger] view.pending[i]).job_id != job_id)
                ==> found is None
        }),
{
    model::lemma_queued_position(view.pending, job_id);
    if let Some(found) = model::queued_position(view.pending, job_id) {
        if 0 <= place < view.pending.len() && view.pending[place].job_id == job_id {
            if found < place {
                assert(view.pending[found].job_id != view.pending[place].job_id);
            } else if place < found {
                assert(view.pending[place].job_id != view.pending[found].job_id);
            }
        }
    }
}

/// An execution whose reader is gone goes on as it is; its output is gone, and whatever is
/// emitted is answered so.
pub proof fn law_lost_reader_leaves_the_execution(execution: ExecView)
    ensures
        ({
            let after = super::without_reader(execution);
            &&& after.phase == execution.phase
            &&& after.outcome == execution.outcome
            &&& after.cancel_requested == execution.cancel_requested
            &&& after.next_form == execution.next_form
            &&& after.output.disconnected
            &&& after.output.ready.len() == 0
            &&& after.output.pending.len() == 0
            &&& after.output.emit_result() is Disconnected
        }),
{
}

/// Whoever waits for a document is told the document, or the error; and where something else
/// came, that the document was not published.
pub proof fn law_document_or_error_is_told(
    result: Result<OperationOutcomeView, ErrorView>,
    otherwise: ErrorView,
)
    ensures
        result matches Ok(OperationOutcomeView::Document(document)) ==> super::document_told(
            result,
            otherwise,
        ) == Ok::<DocumentView, ErrorView>(document),
        result matches Err(error) ==> super::document_told(result, otherwise) == Err::<
            DocumentView,
            ErrorView,
        >(error),
        result matches Ok(outcome) ==> (!(outcome is Document) ==> super::document_told(
            result,
            otherwise,
        ) == Err::<DocumentView, ErrorView>(otherwise)),
{
}

/// The execution that runs is known by the identifier of its job and by the document that it
/// runs on; a step changes its state and nothing else.
pub proof fn law_running_execution_is_found(
    view: SchedulerView,
    job_id: u64,
    target: NativeDocumentKey,
    id: Seq<char>,
    execution: ExecView,
    changed: ExecView,
)
    requires
        operations::working_on(view, OperationView::Execute { id, execution }),
    ensures
        view.running(job_id) == if view.active->0.job_id == job_id {
            Some(execution)
        } else {
            None
        },
        view.running_on(target) == if view.active->0.native_target == Some(target) {
            Some(execution)
        } else {
            None
        },
        ({
            let after = view.with_running(changed);
            &&& operations::working_on(after, OperationView::Execute { id, execution: changed })
            &&& after.active->0.job_id == view.active->0.job_id
            &&& after.active->0.native_target == view.active->0.native_target
            &&& after.active->0.reservation == view.active->0.reservation
            &&& after.pending == view.pending
            &&& after.documents == view.documents
            &&& after.quarantined == view.quarantined && after.stopping == view.stopping
        }),
{
}

/// An operation that is no execution runs nothing.
pub proof fn law_other_operations_run_nothing(
    view: SchedulerView,
    job_id: u64,
    target: NativeDocumentKey,
)
    requires
        view.active is None || !(view.active->0.operation is Execute),
    ensures
        view.running(job_id) is None,
        view.running_on(target) is None,
{
}

/// Whether a document can be saved as a drawing is found out of its own path.
pub proof fn law_save_looks_at_its_own_path(
    view: SchedulerView,
    id: Seq<char>,
    place: int,
    directory: Seq<char>,
    name: Seq<char>,
    dwg: bool,
)
    requires
        operations::next_is(view, OperationView::Save { id }),
        operations::listed_at(view.documents, id, place),
        view.documents[place].document.file_path == Some(directory + name),
        view.first_save_path_is(dwg),
        directory.len() > 0,
        directory.last() == '/',
        directory.len() >= 2 ==> !((directory[0] == '/' || directory[0] == '\\') && (directory[1]
            == '/' || directory[1] == '\\')),
        naming::proper_name(name),
        forall|i: int| 0 <= i < name.len() ==> #[trigger] name[i] != '\\' && name[i] != ':',
    ensures
        dwg <==> name.len() > 4 && naming::has_drawing_suffix(name),
{
    operations::lemma_listed(view.documents, id, place);
    naming::law_path_is_shown_by_its_name(directory, name, name, dwg);
    naming::law_drawing_suffix(name);
}

/// A port that is opened for an execution claims its bridge, for the kind of output that was
/// asked for, and begins with the answer of the channel; the execution goes on as it is.
pub proof fn law_opened_port_claims_the_bridge(
    execution: ExecView,
    kind: ValueOutputKind,
    mode: OutputPortMode,
    port: PortView,
    after: ExecView,
)
    requires
        super::port_opened(execution, kind, mode, port, after),
        execution.bridge.claimable(kind),
    ensures
        port.lease matches Some(lease) && lease.kind == kind && after.bridge.grants(lease),
        port.mode == mode,
        port.printer is None,
        port.completed_values == 0,
        port.result is Continue <==> !execution.output.disconnected && !execution.output.stopped
            && !execution.output.cancelled && !execution.output.finished,
        after.phase == execution.phase,
        after.outcome == execution.outcome,
        after.output == execution.output,
        !after.bridge.claimable(kind),
        super::idle_port().result is Inactive,
        super::idle_port().lease is None,
{
}

/// What the native side reports is taken as it is, but for a detail that is too long.
pub proof fn law_reports_are_taken_as_they_are(result: ActionResultView, step: StepResultView)
    ensures
        ({
            let taken = model::bounded_result(result);
            let stepped = model::bounded_step(step);
            &&& taken.kind == result.kind
            &&& taken.native_status == result.native_status
            &&& diagnostic::told_text(taken.native_detail, result.native_detail)
            &&& stepped.kind == step.kind
            &&& stepped.native_status == step.native_status
            &&& stepped.lisp_errno == step.lisp_errno
            &&& stepped.bridge_symbols_clear_status == step.bridge_symbols_clear_status
            &&& diagnostic::told_text(stepped.detail, step.detail)
            &&& model::no_step().kind is Invalid
            &&& model::no_step().source.len() == 0
            &&& !model::no_step().retain_value
        }),
{
    diagnostic::law_diagnostic_keeps_its_text(result.native_detail);
    diagnostic::law_diagnostic_keeps_its_text(step.detail);
}

/// An execution that is refused for want of room leaves nothing behind but that its
/// identifier is not used again.
pub proof fn law_refused_execution_leaves_nothing(view: SchedulerView)
    requires
        !view.stopping,
        !view.quarantined,
    ensures
        view.declined().pending == view.pending,
        view.declined().active == view.active,
        view.declined().documents == view.documents,
        view.declined().wake_pending == view.wake_pending,
        view.declined().next_job_id != view.next_job_id,
        view.next_job_id < u64::MAX ==> view.declined().next_job_id == view.next_job_id + 1,
{
}

} // verus!
