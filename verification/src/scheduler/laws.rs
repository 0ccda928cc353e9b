//! What holds of the scheduler whatever happens.
use vstd::prelude::*;

use super::error::ErrorView;
use super::job;
use super::job::{
    JobView, OperationOutcomeView, OperationView, BUSY_RETRY_INITIAL, BUSY_RETRY_MAX,
};
use super::model;
use super::model::{Refusal, SchedulerView, SubmissionView, MAX_MUTATION_JOBS};
use super::reservations::ExecutionReservation;
use crate::documents::{Document, NativeDocumentKey};
use crate::exec::outcome::OutcomeView;
use crate::exec::state::ExecView;
use crate::native::ActionResultView;
use crate::registry;

verus! {

/// While a job is active, no other is given to the native side.
pub proof fn law_one_job_at_a_time(view: SchedulerView, now: u64, dwg: bool)
    requires
        view.active is Some,
    ensures
        view.taken(now, dwg).1.action == job::no_action(),
        view.taken(now, dwg).1.settled is None,
        view.taken(now, dwg).0.active == view.active,
        view.taken(now, dwg).0.pending == view.pending,
{
}

/// Jobs are taken in the order in which they were handed in: a new job stands behind all
/// others, and the first is the one that is taken.
pub proof fn law_first_come_first_served(
    view: SchedulerView,
    operation: OperationView,
    id: Seq<char>,
    execution: ExecView,
    reservation: ExecutionReservation,
    now: u64,
    dwg: bool,
)
    ensures
        view.submitted(operation, dwg).1 is Queued ==> {
            let after = view.submitted(operation, dwg).0;
            &&& after.pending.len() == view.pending.len() + 1
            &&& after.pending.take(view.pending.len() as int) == view.pending
            &&& after.pending.last().operation == operation
        },
        execution.outcome is None ==> {
            let after = view.admitted(id, execution, reservation, now).0;
            &&& after.pending.len() == view.pending.len() + 1
            &&& after.pending.take(view.pending.len() as int) == view.pending
            &&& after.pending.last().operation == (OperationView::Execute { id, execution })
        },
        view.taken(now, dwg).0.active is Some && view.active is None ==> {
            &&& view.taken(now, dwg).0.active->0.job_id == view.pending[0].job_id
            &&& view.taken(now, dwg).0.pending == view.pending.skip(1)
        },
{
    if view.submitted(operation, dwg).1 is Queued {
        let after = view.submitted(operation, dwg).0;
        assert(after.pending.take(view.pending.len() as int) =~= view.pending);
    }
    if execution.outcome is None {
        let after = view.admitted(id, execution, reservation, now).0;
        assert(after.pending.take(view.pending.len() as int) =~= view.pending);
    }
}

/// An execution that is put off since its document is busy keeps its place before all
/// others, and is not taken until it was readied or its time has come.
pub proof fn law_busy_execution_keeps_its_place(
    view: SchedulerView,
    job_id: u64,
    result: ActionResultView,
    quarantine: bool,
    now: u64,
    later: u64,
    dwg: bool,
)
    requires
        view.active is Some,
        view.active->0.retry_delay <= BUSY_RETRY_MAX,
        now + BUSY_RETRY_MAX <= u64::MAX,
        view.completed(job_id, result, quarantine, now).1.len() == 0,
        view.completed(job_id, result, quarantine, now).0 != view,
    ensures
        ({
            let after = view.completed(job_id, result, quarantine, now).0;
            &&& after.active is None
            &&& after.pending.len() == view.pending.len() + 1
            &&& after.pending[0].job_id == job_id
            &&& after.pending.skip(1) == view.pending
            &&& after.taken(later, dwg).1.action == job::no_action()
            &&& after.taken(later, dwg).0.pending == after.pending
            &&& now <= after.pending[0].retry_at->0 <= now + BUSY_RETRY_MAX
        }),
{
    let after = view.completed(job_id, result, quarantine, now).0;
    assert(after.pending.skip(1) =~= view.pending);
}

/// The pause before a busy document is tried again doubles up to its limit.
pub proof fn law_pause_doubles(job: JobView, now: u64)
    requires
        BUSY_RETRY_INITIAL <= job.retry_delay <= BUSY_RETRY_MAX,
    ensures
        BUSY_RETRY_INITIAL <= job.deferred(now).retry_delay <= BUSY_RETRY_MAX,
        job.deferred(now).retry_delay == 2 * job.retry_delay || job.deferred(now).retry_delay
            == BUSY_RETRY_MAX,
        job.deferred(now).retry_delay >= job.retry_delay,
{
}

/// A native state that is in doubt stays so: no event takes that back, and neither does a
/// new start.
pub proof fn law_quarantine_is_final(
    view: SchedulerView,
    operation: OperationView,
    id: Seq<char>,
    execution: ExecView,
    reservation: ExecutionReservation,
    job_id: u64,
    result: ActionResultView,
    quarantine: bool,
    now: u64,
    dwg: bool,
)
    requires
        view.quarantined,
    ensures
        view.submitted(operation, dwg).0.quarantined,
        view.admitted(id, execution, reservation, now).0.quarantined,
        view.declined().quarantined,
        view.taken(now, dwg).0.quarantined,
        view.completed(job_id, result, quarantine, now).0.quarantined,
        view.cancelled(job_id).0.quarantined,
        view.at(now).woken().quarantined,
        view.readied().woken().quarantined,
        view.stopped().quarantined,
        (SchedulerView { stopping: false, ..view }).quarantined,
{
}

/// While the native state is in doubt, every operation is refused and the native side gets
/// no work.
pub proof fn law_quarantine_refuses_work(
    view: SchedulerView,
    operation: OperationView,
    execution: ExecView,
    now: u64,
    dwg: bool,
)
    requires
        view.quarantined,
        !view.stopping,
    ensures
        view.submitted(operation, dwg) == (
            view,
            SubmissionView::Done(Err(ErrorView::NativeMutationStateUnknown)),
        ),
        view.refusal(execution) == Some(ErrorView::NativeMutationStateUnknown),
        view.taken(now, dwg).1.action == job::no_action(),
        view.taken(now, dwg).1.settled is None,
        !view.wakes(),
{
}

/// A report that leaves the native state in doubt turns away every job that waits, each
/// with that reason.
pub proof fn law_doubt_turns_all_away(
    view: SchedulerView,
    job_id: u64,
    result: ActionResultView,
    now: u64,
    place: int,
)
    requires
        view.active is Some,
        view.active->0.job_id == job_id,
        model::requires_quarantine(result.kind),
        0 <= place < view.pending.len(),
    ensures
        ({
            let (after, settled) = view.completed(job_id, result, true, now);
            &&& after.quarantined
            &&& after.pending.len() == 0
            &&& after.active is None
            &&& settled.len() == view.pending.len() + 1
            &&& settled[0].job_id == job_id
            &&& settled[place + 1].job_id == view.pending[place].job_id
            &&& settled[place + 1].outcome == Err::<OperationOutcomeView, ErrorView>(
                ErrorView::NativeMutationStateUnknown,
            )
        }),
{
}

/// A report on another job than the active one changes nothing. One on the active job
/// settles that job exactly once, unless it puts off an execution that has not begun.
/// Where the native state is in doubt after it, every job that waits is turned away, later
/// operations are refused and the native side gets no work; else what waits stays as it is.
pub proof fn law_report_settles_the_active_job(
    view: SchedulerView,
    job_id: u64,
    result: ActionResultView,
    now: u64,
    operation: OperationView,
    later: u64,
    dwg: bool,
)
    requires
        ids_are_distinct(view),
        !view.stopping,
        !(result.kind is NotQuiescent && (view.active matches Some(active)
            && active.not_begun())),
    ensures
        ({
            let doubt = model::requires_quarantine(result.kind);
            let (after, settled) = view.completed(job_id, result, doubt, now);
            if !(view.active matches Some(active) && active.job_id == job_id) {
                after == view && settled.len() == 0
            } else {
                &&& after.active is None
                &&& settled.len() > 0
                &&& settled[0].job_id == job_id
                &&& forall|i: int|
                    0 < i < settled.len() ==> (#[trigger] settled[i]).job_id != job_id
                &&& if doubt {
                    &&& after.quarantined
                    &&& after.pending.len() == 0
                    &&& settled.len() == view.pending.len() + 1
                    &&& forall|i: int|
                        0 <= i < view.pending.len() ==> settled[i + 1].job_id == (
                        #[trigger] view.pending[i]).job_id && settled[i + 1].outcome == Err::<
                            OperationOutcomeView,
                            ErrorView,
                        >(ErrorView::NativeMutationStateUnknown)
                    &&& after.submitted(operation, dwg) == (
                        after,
                        SubmissionView::Done(Err(ErrorView::NativeMutationStateUnknown)),
                    )
                    &&& after.taken(later, dwg).1.action == job::no_action()
                } else {
                    &&& settled.len() == 1
                    &&& after.pending == view.pending
                    &&& after.quarantined == view.quarantined
                }
            }
        }),
{
    let doubt = model::requires_quarantine(result.kind);
    let (after, settled) = view.completed(job_id, result, doubt, now);
    if view.active matches Some(active) && active.job_id == job_id && doubt {
        assert forall|i: int| 0 < i < settled.len() implies (#[trigger] settled[i]).job_id
            != job_id by {
            assert(settled[i].job_id == view.pending[i - 1].job_id);
        }
        assert forall|i: int| 0 <= i < view.pending.len() implies settled[i + 1].job_id == (
        #[trigger] view.pending[i]).job_id by {}
    }
}

/// An execution that was put off since its document was busy settles nothing and waits,
/// until it is said that the document may be ready: then it is taken again, unless it was
/// cancelled, its deadline has passed or its document was closed.
pub proof fn law_readied_execution_is_taken_again(
    view: SchedulerView,
    id: Seq<char>,
    execution: ExecView,
    result: ActionResultView,
    now: u64,
    between: u64,
    later: u64,
    dwg: bool,
)
    requires
        !view.stopping,
        !view.quarantined,
        view.active matches Some(active) && {
            &&& active.operation == (OperationView::Execute { id, execution })
            &&& active.not_begun()
            &&& !active.cancels()
            &&& !active.lapses(now)
            &&& !active.lapses(later)
        },
        execution.outcome is None,
        registry::with_id::<Document>(view.documents, id) is Some,
        result.kind is NotQuiescent,
    ensures
        ({
            let job_id = view.active->0.job_id;
            let doubt = model::requires_quarantine(result.kind);
            let (deferred, settled) = view.completed(job_id, result, doubt, now);
            let (rested, nothing) = deferred.taken(between, dwg);
            let (active, taken) = rested.readied().woken().taken(later, dwg);
            &&& settled.len() == 0
            &&& nothing.action == job::no_action()
            &&& nothing.settled is None
            &&& rested.readied().wakes()
            &&& taken.action.kind is QueueExecutionDriver
            &&& taken.action.job_id == job_id
            &&& taken.settled is None
            &&& active.active is Some
            &&& active.active->0.job_id == job_id
            &&& active.active->0.operation == view.active->0.operation
        }),
{
    let deferred = view.completed(view.active->0.job_id, result, false, now).0;
    assert(deferred.pending[0] == view.active->0.deferred(now));
}

/// Stopping turns away what waits and leaves the active job to be completed.
pub proof fn law_stop_leaves_the_active_job(view: SchedulerView)
    ensures
        view.stopped().pending.len() == 0,
        view.stopped().active is Some <==> view.active is Some,
        view.active is Some ==> view.stopped().active->0.job_id == view.active->0.job_id,
        model::turned_away(view.pending, Refusal::PluginStopping).len() == view.pending.len(),
{
}

/// Cancelling an execution that waits takes it out of the queue, leaves the others in
/// their order, and makes room for another.
pub proof fn law_queued_cancellation_frees_its_place(view: SchedulerView, job_id: u64)
    requires
        view.active is Some ==> view.active->0.job_id != job_id,
        model::queued_position(view.pending, job_id) is Some,
        view.cancelled(job_id).1.result is Accepted,
    ensures
        ({
            let (after, cancellation) = view.cancelled(job_id);
            let position = model::queued_position(view.pending, job_id)->0;
            &&& after.pending == view.pending.remove(position)
            &&& after.active == view.active
            &&& cancellation.settled is Some
            &&& cancellation.settled->0.job_id == job_id
            &&& cancellation.settled->0.outcome == Ok::<OperationOutcomeView, ErrorView>(
                OperationOutcomeView::Execution(OutcomeView::Cancelled),
            )
            &&& after.load(model::execution_measure()) == view.load(model::execution_measure()) - 1
            &&& after.job_count() == view.job_count() - 1
        }),
{
    model::lemma_queued_position(view.pending, job_id);
    let position = model::queued_position(view.pending, job_id)->0;
    model::lemma_total_remove(view.pending, position, model::execution_measure());
}

/// An execution that its start deadline has ended waits no more, so that a cancellation
/// finds nothing; and one that was cancelled is not ended again by its deadline.
pub proof fn law_deadline_and_cancellation_have_one_winner(
    view: SchedulerView,
    job_id: u64,
    now: u64,
)
    requires
        view.active matches Some(active) ==> active.job_id != job_id,
        forall|i: int, j: int|
            #![trigger view.pending[i], view.pending[j]]
            0 <= i < j < view.pending.len() ==> view.pending[i].job_id != view.pending[j].job_id,
        model::queued_position(view.pending, job_id) is Some,
    ensures
        view.pending[model::queued_position(view.pending, job_id)->0].lapses(now) ==> view.at(
            now,
        ).woken().cancelled(job_id).1.result is NotFound,
        view.cancelled(job_id).1.result is Accepted ==> forall|i: int|
            0 <= i < view.cancelled(job_id).0.pending.len() ==> (
            #[trigger] view.cancelled(job_id).0.pending[i]).job_id != job_id,
{
    model::lemma_queued_position(view.pending, job_id);
    let position = model::queued_position(view.pending, job_id)->0;
    if view.pending[position].lapses(now) {
        let after = view.at(now).woken();
        let kept = model::remaining(view.pending, now);
        lemma_remaining_ids(view.pending, now);
        assert forall|i: int| 0 <= i < kept.len() implies (#[trigger] kept[i]).job_id
            != job_id by {
            let from = choose|from: int|
                0 <= from < view.pending.len() && #[trigger] view.pending[from] == kept[i]
                    && !view.pending[from].lapses(now);
            if from < position {
                assert(view.pending[from].job_id != view.pending[position].job_id);
            } else if position < from {
                assert(view.pending[position].job_id != view.pending[from].job_id);
            }
        }
        model::lemma_queued_position(after.pending, job_id);
        if model::queued_position(after.pending, job_id) is Some {
            let found = model::queued_position(after.pending, job_id)->0;
            assert(after.pending[found].job_id == kept[found].job_id);
        }
    }
    if view.cancelled(job_id).1.result is Accepted {
        let after = view.cancelled(job_id).0;
        assert forall|i: int| 0 <= i < after.pending.len() implies (
        #[trigger] after.pending[i]).job_id != job_id by {
            if i < position {
                assert(view.pending[i].job_id != view.pending[position].job_id);
            } else {
                assert(after.pending[i] == view.pending[i + 1]);
                assert(view.pending[position].job_id != view.pending[i + 1].job_id);
            }
        }
    }
}

proof fn lemma_remaining_ids(jobs: Seq<JobView>, now: u64)
    ensures
        forall|i: int|
            #![trigger model::remaining(jobs, now)[i]]
            0 <= i < model::remaining(jobs, now).len() ==> exists|from: int|
                0 <= from < jobs.len() && #[trigger] jobs[from] == model::remaining(jobs, now)[i]
                    && !jobs[from].lapses(now),
    decreases jobs.len(),
{
    if jobs.len() > 0 {
        let rest = jobs.drop_last();
        lemma_remaining_ids(rest, now);
        let kept = model::remaining(jobs, now);
        assert forall|i: int| #![trigger kept[i]] 0 <= i < kept.len() implies exists|from: int|
            0 <= from < jobs.len() && #[trigger] jobs[from] == kept[i] && !jobs[from].lapses(
                now,
            ) by {
            if i < model::remaining(rest, now).len() {
                assert(kept[i] == model::remaining(rest, now)[i]);
                let from = choose|from: int|
                    0 <= from < rest.len() && #[trigger] rest[from] == model::remaining(
                        rest,
                        now,
                    )[i] && !rest[from].lapses(now);
                assert(jobs[from] == rest[from]);
            } else {
                assert(jobs[jobs.len() - 1] == kept[i]);
            }
        }
    }
}

/// What an execution has come to is kept when the native side then reports that it could
/// not run it.
pub proof fn law_outcome_survives_a_native_failure(
    operation: OperationView,
    result: ActionResultView,
    view: SchedulerView,
    target: Option<NativeDocumentKey>,
)
    requires
        operation.execution_outcome() is Some,
        !model::requires_quarantine(result.kind),
        !(result.kind is ExecutionBridgeFailed),
    ensures
        operation.completed(result, view.documents, view.ignore_case, target) == Ok::<
            OperationOutcomeView,
            ErrorView,
        >(OperationOutcomeView::Execution(operation.execution_outcome()->0)),
{
}

/// A failure of an execution is kept where only the reserved symbols could not be cleared
/// afterwards.
pub proof fn law_failure_survives_retained_symbols(
    operation: OperationView,
    result: ActionResultView,
    view: SchedulerView,
    target: Option<NativeDocumentKey>,
)
    requires
        operation.execution_outcome() matches Some(OutcomeView::Failure(_)),
        result.kind is ExecutionBridgeSymbolsClearFailed,
    ensures
        operation.completed(result, view.documents, view.ignore_case, target) == Ok::<
            OperationOutcomeView,
            ErrorView,
        >(OperationOutcomeView::Execution(operation.execution_outcome()->0)),
{
}

/// Each job has an identifier of its own that was not used before.
pub open spec fn ids_are_distinct(view: SchedulerView) -> bool {
    &&& forall|i: int| 0 <= i < view.pending.len() ==> (#[trigger] view.pending[i]).job_id
        < view.next_job_id
    &&& forall|i: int, j: int|
        #![trigger view.pending[i], view.pending[j]]
        0 <= i < j < view.pending.len() ==> view.pending[i].job_id != view.pending[j].job_id
    &&& view.active matches Some(job) ==> job.job_id < view.next_job_id && forall|i: int|
        0 <= i < view.pending.len() ==> (#[trigger] view.pending[i]).job_id != job.job_id
}

/// Until the identifiers run out, no two jobs share one.
pub proof fn law_job_ids_stay_distinct(
    view: SchedulerView,
    operation: OperationView,
    id: Seq<char>,
    execution: ExecView,
    reservation: ExecutionReservation,
    job_id: u64,
    result: ActionResultView,
    quarantine: bool,
    now: u64,
    dwg: bool,
)
    requires
        ids_are_distinct(view),
        view.next_job_id < u64::MAX,
    ensures
        ids_are_distinct(view.submitted(operation, dwg).0),
        ids_are_distinct(view.admitted(id, execution, reservation, now).0),
        ids_are_distinct(view.declined()),
        ids_are_distinct(view.taken(now, dwg).0),
        ids_are_distinct(view.completed(job_id, result, quarantine, now).0),
        ids_are_distinct(view.cancelled(job_id).0),
        ids_are_distinct(view.at(now).woken()),
        ids_are_distinct(view.readied().woken()),
        ids_are_distinct(view.stopped()),
{
    lemma_handed_in_ids(view, operation, id, execution, reservation, now, dwg);
    lemma_taken_ids(view, now, dwg);
    lemma_completed_ids(view, job_id, result, quarantine, now);
    lemma_cancelled_ids(view, job_id);
    lemma_elapsed_ids(view, now);
    lemma_readied_ids(view);
}

proof fn lemma_handed_in_ids(
    view: SchedulerView,
    operation: OperationView,
    id: Seq<char>,
    execution: ExecView,
    reservation: ExecutionReservation,
    now: u64,
    dwg: bool,
)
    requires
        ids_are_distinct(view),
        view.next_job_id < u64::MAX,
    ensures
        ids_are_distinct(view.submitted(operation, dwg).0),
        ids_are_distinct(view.admitted(id, execution, reservation, now).0),
        ids_are_distinct(view.declined()),
{
}

proof fn lemma_taken_ids(view: SchedulerView, now: u64, dwg: bool)
    requires
        ids_are_distinct(view),
    ensures
        ids_are_distinct(view.taken(now, dwg).0),
{
    let taken = view.taken(now, dwg).0;
    if taken.pending != view.pending {
        assert forall|i: int| 0 <= i < taken.pending.len() implies #[trigger] taken.pending[i]
            == view.pending[i + 1] by {}
    }
}

proof fn lemma_completed_ids(
    view: SchedulerView,
    job_id: u64,
    result: ActionResultView,
    quarantine: bool,
    now: u64,
)
    requires
        ids_are_distinct(view),
    ensures
        ids_are_distinct(view.completed(job_id, result, quarantine, now).0),
{
    let completed = view.completed(job_id, result, quarantine, now).0;
    if completed.pending.len() == view.pending.len() + 1 {
        assert forall|i: int| 1 <= i < completed.pending.len() implies #[trigger] completed.pending[i]
            == view.pending[i - 1] by {}
    }
}

proof fn lemma_readied_ids(view: SchedulerView)
    requires
        ids_are_distinct(view),
    ensures
        ids_are_distinct(view.readied().woken()),
        ids_are_distinct(view.stopped()),
{
    let after = view.readied();
    assert forall|i: int| 0 <= i < after.pending.len() implies (#[trigger] after.pending[i]).job_id
        == view.pending[i].job_id by {}
}

proof fn lemma_cancelled_ids(view: SchedulerView, job_id: u64)
    requires
        ids_are_distinct(view),
    ensures
        ids_are_distinct(view.cancelled(job_id).0),
{
    let cancelled = view.cancelled(job_id).0;
    model::lemma_queued_position(view.pending, job_id);
    if cancelled.pending != view.pending {
        let position = model::queued_position(view.pending, job_id)->0;
        assert forall|i: int| 0 <= i < cancelled.pending.len() implies #[trigger] cancelled.pending[i]
            == view.pending[if i < position {
            i
        } else {
            i + 1
        }] by {}
    }
}

proof fn lemma_elapsed_ids(view: SchedulerView, now: u64)
    requires
        ids_are_distinct(view),
    ensures
        ids_are_distinct(view.at(now).woken()),
{
    let kept = model::remaining(view.pending, now);
    let after = view.at(now);
    lemma_remaining_order(view.pending, now);
    assert forall|i: int| 0 <= i < after.pending.len() implies (#[trigger] after.pending[i]).job_id
        == kept[i].job_id by {}
    assert forall|i: int, j: int|
        #![trigger after.pending[i], after.pending[j]]
        0 <= i < j < after.pending.len() implies after.pending[i].job_id
        != after.pending[j].job_id by {
        assert(kept[i].job_id != kept[j].job_id);
    }
    lemma_remaining_ids(view.pending, now);
}

/// Jobs that remain are as distinct as they were.
proof fn lemma_remaining_order(jobs: Seq<JobView>, now: u64)
    requires
        forall|i: int, j: int|
            #![trigger jobs[i], jobs[j]]
            0 <= i < j < jobs.len() ==> jobs[i].job_id != jobs[j].job_id,
    ensures
        forall|i: int, j: int|
            #![trigger model::remaining(jobs, now)[i], model::remaining(jobs, now)[j]]
            0 <= i < j < model::remaining(jobs, now).len() ==> model::remaining(jobs, now)[i].job_id
                != model::remaining(jobs, now)[j].job_id,
    decreases jobs.len(),
{
    if jobs.len() > 0 {
        let rest = jobs.drop_last();
        assert forall|i: int, j: int|
            #![trigger rest[i], rest[j]]
            0 <= i < j < rest.len() implies rest[i].job_id != rest[j].job_id by {
            assert(jobs[i].job_id != jobs[j].job_id);
        }
        lemma_remaining_order(rest, now);
        lemma_remaining_ids(rest, now);
        let before = model::remaining(rest, now);
        let kept = model::remaining(jobs, now);
        assert forall|i: int, j: int|
            #![trigger kept[i], kept[j]]
            0 <= i < j < kept.len() implies kept[i].job_id != kept[j].job_id by {
            assert(kept[i] == before[i]);
            if j < before.len() {
                assert(kept[j] == before[j]);
            } else {
                let from = choose|from: int|
                    0 <= from < rest.len() && #[trigger] rest[from] == before[i]
                        && !rest[from].lapses(now);
                assert(jobs[from] == rest[from]);
                assert(jobs[from].job_id != jobs[jobs.len() - 1].job_id);
            }
        }
    }
}

/// No more than a fixed number of jobs is ever admitted.
pub proof fn law_full_queue_refuses(view: SchedulerView, operation: OperationView, dwg: bool)
    requires
        view.job_count() >= MAX_MUTATION_JOBS,
        !view.stopping,
        !view.quarantined,
    ensures
        view.submitted(operation, dwg) == (
            view,
            SubmissionView::Done(Err(ErrorView::MutationCapacity)),
        ),
{
}

/// An undone or redone step counts only on the very document it was meant for.
pub proof fn law_history_needs_the_same_generation(
    operation: OperationView,
    view: SchedulerView,
    expected: NativeDocumentKey,
)
    requires
        operation is History,
    ensures
        operation.finalized(view.documents, view.ignore_case, Some(expected)) is Ok ==> {
            let found = registry::with_id::<Document>(view.documents, operation.document_id());
            found is Some && found->0.native_key == expected
        },
        operation.finalized(view.documents, view.ignore_case, None) is Err,
{
}

} // verus!
