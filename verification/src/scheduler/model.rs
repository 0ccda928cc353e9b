//! What the scheduler holds, and what each event makes of it.
use vstd::prelude::*;

use super::error::ErrorView;
use super::job;
use super::job::{
    ActionView, JobView, OperationOutcomeView, OperationView, OutputEnd, PreparedView, SettledView,
    BUSY_RETRY_INITIAL, EXECUTION_START_TIMEOUT,
};
use super::reservations::ExecutionReservation;
use super::CancelResult;
use crate::documents::{DocumentView, NativeDocumentKey};
use crate::exec::diagnostic;
use crate::exec::lisp::StepResultView;
use crate::exec::outcome::OutcomeView;
use crate::exec::state::{ExecView, StepView};
use crate::exec::ExecStepKind;
use crate::naming;
use crate::native::{
    ActionResultView, NativeActionResultKind, NativeExecutionFinalizationObservation,
};
use crate::registry::EntryView;

verus! {

/// How many operations may wait or run at once.
pub const MAX_MUTATION_JOBS: usize = 32;

/// How many bytes of source the admitted executions may have together.
pub const MAX_ADMITTED_SOURCE_BYTES: usize = 33554432;

/// The state of a scheduler.
#[verifier::ext_equal]
pub struct SchedulerView {
    pub documents: Seq<EntryView<DocumentView>>,
    pub pending: Seq<JobView>,
    pub active: Option<JobView>,
    pub next_job_id: u64,
    pub ignore_case: bool,
    pub wake_pending: bool,
    pub stopping: bool,
    pub quarantined: bool,
}

/// Why jobs that wait are turned away.
#[derive(Clone, Copy, Debug, PartialEq, Eq, Structural)]
pub enum Refusal {
    PluginStopping,
    NativeMutationStateUnknown,
    ScheduleFailed(i32),
}

impl Refusal {
    pub open spec fn reason(self) -> ErrorView {
        match self {
            Refusal::PluginStopping => ErrorView::PluginStopping,
            Refusal::NativeMutationStateUnknown => ErrorView::NativeMutationStateUnknown,
            Refusal::ScheduleFailed(status) => ErrorView::ScheduleFailed(status),
        }
    }
}

/// The sum of a measure over some jobs.
pub open spec fn total(jobs: Seq<JobView>, measure: spec_fn(JobView) -> nat) -> nat
    decreases jobs.len(),
{
    if jobs.len() == 0 {
        0
    } else {
        total(jobs.drop_last(), measure) + measure(jobs.last())
    }
}

/// One for each execution.
pub open spec fn execution_measure() -> spec_fn(JobView) -> nat {
    |job: JobView|
        if job.operation.execution() is Some {
            1nat
        } else {
            0nat
        }
}

/// The size of the source of each execution.
pub open spec fn source_measure() -> spec_fn(JobView) -> nat {
    |job: JobView|
        match job.operation.execution() {
            Some(execution) => execution.source.len(),
            None => 0nat,
        }
}

/// Where an execution with an identifier waits.
pub open spec fn queued_position(jobs: Seq<JobView>, job_id: u64) -> Option<int>
    decreases jobs.len(),
{
    if jobs.len() == 0 {
        None
    } else {
        match queued_position(jobs.drop_last(), job_id) {
            Some(position) => Some(position),
            None => if jobs.last().job_id == job_id && jobs.last().operation is Execute {
                Some(jobs.len() - 1)
            } else {
                None
            },
        }
    }
}

/// The jobs whose start deadline has not ended them.
pub open spec fn remaining(jobs: Seq<JobView>, now: u64) -> Seq<JobView>
    decreases jobs.len(),
{
    if jobs.len() == 0 {
        Seq::empty()
    } else if jobs.last().lapses(now) {
        remaining(jobs.drop_last(), now)
    } else {
        remaining(jobs.drop_last(), now).push(jobs.last())
    }
}

/// What is left of the jobs that their start deadline has ended.
pub open spec fn lapsed(
    jobs: Seq<JobView>,
    now: u64,
    documents: Seq<EntryView<DocumentView>>,
    ignore_case: bool,
) -> Seq<SettledView>
    decreases jobs.len(),
{
    if jobs.len() == 0 {
        Seq::empty()
    } else if jobs.last().lapses(now) {
        lapsed(jobs.drop_last(), now, documents, ignore_case).push(
            jobs.last().settled(
                jobs.last().at(now).operation.finalized(documents, ignore_case, None),
                OutputEnd::Finished,
            ),
        )
    } else {
        lapsed(jobs.drop_last(), now, documents, ignore_case)
    }
}

/// What is left of jobs that are turned away.
pub open spec fn turned_away(jobs: Seq<JobView>, refusal: Refusal) -> Seq<SettledView> {
    jobs.map_values(|job: JobView| job.settled(Err(refusal.reason()), OutputEnd::Stopped))
}

/// A result of the native side after which its state is in doubt.
pub open spec fn requires_quarantine(kind: NativeActionResultKind) -> bool {
    ||| kind is DocumentContextRestoreFailed
    ||| kind is ExecutionBridgeFinalizationFailed
    ||| kind is ExecutionBridgeSymbolsClearFailed
}

impl NativeExecutionFinalizationObservation {
    pub open spec fn unproved(self) -> bool {
        ||| self.undo_group_may_be_open
        ||| self.bridge_symbols_may_be_retained
        ||| self.staged_form_may_be_retained
        ||| self.value_writer_active
        ||| self.terminal_cleanup_failed
    }

    pub open spec fn only_symbols_unproved(self) -> bool {
        &&& self.bridge_symbols_may_be_retained || self.terminal_cleanup_failed
        &&& !self.undo_group_may_be_open
        &&& !self.staged_form_may_be_retained
        &&& !self.value_writer_active
    }
}

/// What a native result is taken for, given what the native side knows of its state.
pub open spec fn classified_kind(
    kind: NativeActionResultKind,
    observation: NativeExecutionFinalizationObservation,
) -> NativeActionResultKind {
    if observation.unproved() && !(kind is DocumentContextRestoreFailed) && !(
    kind is ExecutionBridgeSymbolsClearFailed && observation.only_symbols_unproved()) {
        NativeActionResultKind::ExecutionBridgeFinalizationFailed
    } else {
        kind
    }
}

/// A native result with a detail within its limit.
pub open spec fn bounded_result(result: ActionResultView) -> ActionResultView {
    ActionResultView {
        native_detail: diagnostic::bounded_text(result.native_detail, false),
        ..result
    }
}

/// A step result with a detail within its limit.
pub open spec fn bounded_step(result: StepResultView) -> StepResultView {
    StepResultView { detail: diagnostic::bounded_text(result.detail, false), ..result }
}

/// What came of handing an operation in.
#[verifier::ext_equal]
pub enum SubmissionView {
    Done(Result<OperationOutcomeView, ErrorView>),
    Queued { job_id: u64, should_wake: bool },
}

/// What came of handing an execution in.
#[verifier::ext_equal]
pub struct AdmissionView {
    pub job_id: u64,
    pub settled: Option<SettledView>,
    pub should_wake: bool,
}

#[verifier::ext_equal]
pub struct TakenView {
    pub action: ActionView,
    pub settled: Option<SettledView>,
}

#[verifier::ext_equal]
pub struct CancellationView {
    pub result: CancelResult,
    pub settled: Option<SettledView>,
    pub should_wake: bool,
}

impl SchedulerView {
    pub open spec fn empty(ignore_case: bool) -> SchedulerView {
        SchedulerView {
            documents: Seq::empty(),
            pending: Seq::empty(),
            active: None,
            next_job_id: 1,
            ignore_case,
            wake_pending: false,
            stopping: false,
            quarantined: false,
        }
    }

    /// The number of jobs that wait or run.
    pub open spec fn job_count(self) -> nat {
        self.pending.len() + if self.active is Some {
            1nat
        } else {
            0nat
        }
    }

    /// The sum of a measure over the jobs that wait or run.
    pub open spec fn load(self, measure: spec_fn(JobView) -> nat) -> nat {
        total(self.pending, measure) + match self.active {
            Some(job) => measure(job),
            None => 0nat,
        }
    }

    /// The limits on what is admitted.
    pub open spec fn bounded(self) -> bool {
        &&& self.job_count() <= MAX_MUTATION_JOBS
        &&& self.load(execution_measure()) <= super::reservations::MAX_ADMITTED_EXECUTIONS
        &&& self.load(source_measure()) <= MAX_ADMITTED_SOURCE_BYTES
    }

    pub open spec fn idle(self) -> bool {
        self.active is None && self.pending.len() == 0 && !self.wake_pending
    }

    /// The native side has to be woken.
    pub open spec fn wakes(self) -> bool {
        &&& !self.stopping
        &&& !self.quarantined
        &&& self.active is None
        &&& self.pending.len() > 0
        &&& !self.pending[0].waiting_for_readiness
        &&& !self.wake_pending
    }

    pub open spec fn woken(self) -> SchedulerView {
        SchedulerView { wake_pending: self.wake_pending || self.wakes(), ..self }
    }

    pub open spec fn following_id(self) -> u64 {
        if self.next_job_id == u64::MAX {
            0
        } else {
            (self.next_job_id + 1) as u64
        }
    }

    /// A new job behind the others.
    pub open spec fn enqueued(self, job: JobView) -> SchedulerView {
        SchedulerView {
            pending: self.pending.push(job),
            next_job_id: self.following_id(),
            ..self
        }
    }

    pub open spec fn new_job(
        self,
        operation: OperationView,
        start_deadline: Option<u64>,
        reservation: Option<ExecutionReservation>,
    ) -> JobView {
        JobView {
            job_id: self.next_job_id,
            operation,
            native_target: None,
            start_deadline,
            waiting_for_readiness: false,
            retry_at: None,
            retry_delay: BUSY_RETRY_INITIAL,
            reservation,
        }
    }

    /// Why no operation at all is taken.
    pub open spec fn closed_for(self) -> Option<ErrorView> {
        if self.stopping {
            Some(ErrorView::PluginStopping)
        } else if self.quarantined {
            Some(ErrorView::NativeMutationStateUnknown)
        } else {
            None
        }
    }

    /// Why an execution is not admitted. One that has its outcome already takes no place.
    pub open spec fn refusal(self, execution: ExecView) -> Option<ErrorView> {
        match self.closed_for() {
            Some(error) => Some(error),
            None => if execution.outcome is Some {
                None
            } else if self.job_count() >= MAX_MUTATION_JOBS {
                Some(ErrorView::MutationCapacity)
            } else if self.load(execution_measure())
                >= super::reservations::MAX_ADMITTED_EXECUTIONS || self.load(source_measure())
                + execution.source.len() > MAX_ADMITTED_SOURCE_BYTES {
                Some(ErrorView::ExecutionCapacity)
            } else {
                None
            },
        }
    }

    /// After an execution was refused: for want of room it has used up an identifier, and
    /// where no operation is taken at all it leaves no trace.
    pub open spec fn declined(self) -> SchedulerView {
        if self.closed_for() is Some {
            self
        } else {
            SchedulerView { next_job_id: self.following_id(), ..self }
        }
    }

    /// After an execution was admitted: one with an outcome is settled at once, any
    /// other waits behind the jobs that came before.
    pub open spec fn admitted(
        self,
        id: Seq<char>,
        execution: ExecView,
        reservation: ExecutionReservation,
        now: u64,
    ) -> (SchedulerView, AdmissionView) {
        let job = self.new_job(
            OperationView::Execute { id, execution },
            Some((now + EXECUTION_START_TIMEOUT) as u64),
            Some(reservation),
        );
        if execution.outcome is Some {
            let outcome = match job.operation.prepared(self.documents, self.ignore_case, false) {
                PreparedView::Immediate(outcome) => outcome,
                PreparedView::Native(_) => Err(ErrorView::ExecutionNotFinished),
            };
            (
                SchedulerView { next_job_id: self.following_id(), ..self },
                AdmissionView {
                    job_id: self.next_job_id,
                    settled: Some(job.settled(outcome, OutputEnd::Finished)),
                    should_wake: false,
                },
            )
        } else {
            let queued = self.enqueued(job);
            (
                queued.woken(),
                AdmissionView {
                    job_id: self.next_job_id,
                    settled: None,
                    should_wake: queued.wakes(),
                },
            )
        }
    }

    /// After an operation was handed in. Where nothing else is going on, one that needs
    /// no native work is answered at once; else it waits behind the others.
    pub open spec fn submitted(self, operation: OperationView, dwg: bool) -> (
        SchedulerView,
        SubmissionView,
    ) {
        let prepared = operation.prepared(self.documents, self.ignore_case, dwg);
        match self.closed_for() {
            Some(error) => (self, SubmissionView::Done(Err(error))),
            None => if self.job_count() >= MAX_MUTATION_JOBS {
                (self, SubmissionView::Done(Err(ErrorView::MutationCapacity)))
            } else if self.idle() && prepared is Immediate {
                (self, SubmissionView::Done(prepared->Immediate_0))
            } else {
                let queued = self.enqueued(self.new_job(operation, None, None));
                (
                    queued.woken(),
                    SubmissionView::Queued {
                        job_id: self.next_job_id,
                        should_wake: queued.wakes(),
                    },
                )
            },
        }
    }

    /// What was found out about the path of the document that the first job saves.
    pub open spec fn first_save_path_is(self, dwg: bool) -> bool {
        self.pending.len() > 0 ==> self.pending[0].operation.save_path_is(self.documents, dwg)
    }

    /// Something can be found out of any path.
    pub proof fn lemma_first_save_path(self)
        ensures
            exists|dwg: bool| #[trigger] self.first_save_path_is(dwg),
    {
        if self.pending.len() > 0 {
            match self.pending[0].operation.save_path(self.documents) {
                Some(path) => {
                    let dwg = naming::ordinary_path(path) && naming::names_drawing(path);
                    naming::lemma_last_part(path);
                    assert(naming::may_be_dwg(path, dwg));
                    assert(self.first_save_path_is(dwg));
                },
                None => {
                    assert(self.first_save_path_is(false));
                },
            }
        } else {
            assert(self.first_save_path_is(false));
        }
    }

    /// After the native side asked for work: the first job that waits becomes active,
    /// or is settled where it needs no native work any more.
    pub open spec fn taken(self, now: u64, dwg: bool) -> (SchedulerView, TakenView) {
        let rested = SchedulerView { wake_pending: false, ..self };
        let nothing = (rested, TakenView { action: job::no_action(), settled: None });
        if self.stopping || self.quarantined || self.active is Some || self.pending.len() == 0 {
            nothing
        } else if self.pending[0].waiting_for_readiness {
            nothing
        } else {
            let first = self.pending[0].at(now);
            let rest = SchedulerView { pending: self.pending.skip(1), ..rested };
            match first.operation.prepared(self.documents, self.ignore_case, dwg) {
                PreparedView::Immediate(outcome) => (
                    rest,
                    TakenView {
                        action: job::no_action(),
                        settled: Some(first.settled(outcome, OutputEnd::Finished)),
                    },
                ),
                PreparedView::Native(action) => (
                    SchedulerView {
                        active: Some(
                            JobView {
                                native_target: if action.document_token != 0
                                    || action.database_token != 0 {
                                    Some(
                                        NativeDocumentKey {
                                            document_token: action.document_token,
                                            database_token: action.database_token,
                                        },
                                    )
                                } else {
                                    None
                                },
                                ..first
                            },
                        ),
                        ..rest
                    },
                    TakenView {
                        action: ActionView { job_id: first.job_id, ..action },
                        settled: None,
                    },
                ),
            }
        }
    }

    /// After the native side reported on the active job. A busy document puts off an
    /// execution that has not begun, unless that is cancelled, late or over; else the job
    /// is settled. Where the native state is in doubt, all that wait are turned away.
    pub open spec fn completed(
        self,
        job_id: u64,
        result: ActionResultView,
        quarantine: bool,
        now: u64,
    ) -> (SchedulerView, Seq<SettledView>) {
        match self.active {
            None => (self, Seq::empty()),
            Some(active) => if active.job_id != job_id {
                (self, Seq::empty())
            } else {
                let busy = result.kind is NotQuiescent && active.not_begun();
                if busy && !active.cancels() && !active.lapses(now)
                    && active.operation.execution_outcome() is None {
                    (
                        SchedulerView {
                            active: None,
                            pending: seq![active.deferred(now)] + self.pending,
                            ..self
                        },
                        Seq::empty(),
                    )
                } else {
                    let ended = if busy && active.cancels() {
                        active.cancelled()
                    } else if busy {
                        active.at(now)
                    } else {
                        active
                    };
                    let outcome = if busy {
                        ended.operation.finalized(
                            self.documents,
                            self.ignore_case,
                            active.native_target,
                        )
                    } else {
                        active.operation.completed(
                            bounded_result(result),
                            self.documents,
                            self.ignore_case,
                            active.native_target,
                        )
                    };
                    let first = active.settled(outcome, OutputEnd::Finished);
                    if quarantine {
                        (
                            SchedulerView {
                                active: None,
                                pending: Seq::empty(),
                                quarantined: true,
                                wake_pending: false,
                                ..self
                            },
                            seq![first] + turned_away(
                                self.pending,
                                Refusal::NativeMutationStateUnknown,
                            ),
                        )
                    } else {
                        (SchedulerView { active: None, ..self }, seq![first])
                    }
                }
            },
        }
    }

    /// After a cancellation was asked for.
    pub open spec fn cancelled(self, job_id: u64) -> (SchedulerView, CancellationView) {
        let refused = |result: CancelResult|
            (self, CancellationView { result, settled: None, should_wake: false });
        if self.active is Some && self.active->0.job_id == job_id {
            match self.active->0.operation.execution() {
                Some(execution) => if execution.cancellable() {
                    (
                        SchedulerView {
                            active: Some(
                                JobView {
                                    operation: self.active->0.operation.with_execution(
                                        ExecView {
                                            cancel_requested: true,
                                            output: OutputEnd::Cancelled.closed(execution.output),
                                            ..execution
                                        },
                                    ),
                                    ..self.active->0
                                },
                            ),
                            ..self
                        },
                        CancellationView {
                            result: CancelResult::Accepted,
                            settled: None,
                            should_wake: false,
                        },
                    )
                } else {
                    refused(CancelResult::TooLate)
                },
                None => refused(CancelResult::NotFound),
            }
        } else {
            match queued_position(self.pending, job_id) {
                Some(position) => {
                    let queued = self.pending[position];
                    if queued.operation.execution()->0.phase is BeginUndoGroup {
                        let rest = SchedulerView { pending: self.pending.remove(position), ..self };
                        (
                            rest.woken(),
                            CancellationView {
                                result: CancelResult::Accepted,
                                settled: Some(
                                    queued.settled(
                                        Ok(OperationOutcomeView::Execution(OutcomeView::Cancelled)),
                                        OutputEnd::Cancelled,
                                    ),
                                ),
                                should_wake: rest.wakes(),
                            },
                        )
                    } else {
                        refused(CancelResult::TooLate)
                    }
                },
                None => refused(CancelResult::NotFound),
            }
        }
    }

    /// The first job may be tried again.
    pub open spec fn ready_at(self, now: u64) -> SchedulerView {
        if self.pending.len() > 0 && self.pending[0].waiting_for_readiness && (
        self.pending[0].retry_at matches Some(retry_at) && now >= retry_at) {
            SchedulerView {
                pending: self.pending.update(
                    0,
                    JobView {
                        waiting_for_readiness: false,
                        retry_at: None,
                        ..self.pending[0]
                    },
                ),
                ..self
            }
        } else {
            self
        }
    }

    /// After a look at the clock, but for waking.
    pub open spec fn at(self, now: u64) -> SchedulerView {
        (SchedulerView {
            active: match self.active {
                Some(job) => Some(job.at(now)),
                None => None,
            },
            pending: remaining(self.pending, now),
            ..self
        }).ready_at(now)
    }

    /// The document may no longer be busy.
    pub open spec fn readied(self) -> SchedulerView {
        if self.pending.len() > 0 {
            SchedulerView {
                pending: self.pending.update(
                    0,
                    JobView {
                        waiting_for_readiness: false,
                        retry_at: None,
                        retry_delay: BUSY_RETRY_INITIAL,
                        ..self.pending[0]
                    },
                ),
                ..self
            }
        } else {
            self
        }
    }

    /// A time at which the clock has to be looked at.
    pub open spec fn timer(self, time: u64) -> bool {
        ||| exists|i: int| #[trigger] self.start_timer(i, time)
        ||| self.active matches Some(job) && job.start_pending() && job.start_deadline == Some(time)
        ||| self.pending.len() > 0 && self.pending[0].waiting_for_readiness
            && self.pending[0].retry_at == Some(time)
    }

    /// The start deadline of a job that waits.
    pub open spec fn start_timer(self, i: int, time: u64) -> bool {
        &&& 0 <= i < self.pending.len()
        &&& self.pending[i].start_pending()
        &&& self.pending[i].start_deadline == Some(time)
    }

    /// The execution of the active job, where that has the identifier.
    pub open spec fn running(self, job_id: u64) -> Option<ExecView> {
        match self.active {
            Some(job) => if job.job_id == job_id {
                job.operation.execution()
            } else {
                None
            },
            None => None,
        }
    }

    /// The active execution in another state.
    pub open spec fn with_running(self, execution: ExecView) -> SchedulerView {
        SchedulerView {
            active: Some(
                JobView {
                    operation: self.active->0.operation.with_execution(execution),
                    ..self.active->0
                },
            ),
            ..self
        }
    }

    /// The active execution on a document.
    pub open spec fn running_on(self, target: NativeDocumentKey) -> Option<ExecView> {
        match self.active {
            Some(job) => if job.native_target == Some(target) {
                job.operation.execution()
            } else {
                None
            },
            None => None,
        }
    }

    /// After the plugin was told to stop: what waits is turned away, and an active
    /// execution is cancelled as far as it still can be.
    pub open spec fn stopped(self) -> SchedulerView {
        SchedulerView {
            pending: Seq::empty(),
            active: match self.active {
                Some(job) => Some(
                    match job.operation.execution() {
                        Some(execution) => JobView {
                            operation: job.operation.with_execution(
                                ExecView {
                                    cancel_requested: execution.cancel_requested
                                        || execution.cancellable(),
                                    output: OutputEnd::Stopped.closed(execution.output),
                                    ..execution
                                },
                            ),
                            ..job
                        },
                        None => job,
                    },
                ),
                None => None,
            },
            wake_pending: false,
            stopping: true,
            ..self
        }
    }
}

/// The step that is answered where no execution runs.
pub open spec fn no_step() -> StepView {
    StepView { kind: ExecStepKind::Invalid, source: Seq::empty(), retain_value: false }
}

pub proof fn lemma_total_push(jobs: Seq<JobView>, job: JobView, measure: spec_fn(JobView) -> nat)
    ensures
        total(jobs.push(job), measure) == total(jobs, measure) + measure(job),
{
    assert(jobs.push(job).drop_last() =~= jobs);
}

pub proof fn lemma_total_concat(
    left: Seq<JobView>,
    right: Seq<JobView>,
    measure: spec_fn(JobView) -> nat,
)
    ensures
        total(left + right, measure) == total(left, measure) + total(right, measure),
    decreases right.len(),
{
    if right.len() == 0 {
        assert(left + right =~= left);
    } else {
        lemma_total_concat(left, right.drop_last(), measure);
        assert((left + right).drop_last() =~= left + right.drop_last());
    }
}

/// A job counts as much wherever it stands.
pub proof fn lemma_total_remove(
    jobs: Seq<JobView>,
    position: int,
    measure: spec_fn(JobView) -> nat,
)
    requires
        0 <= position < jobs.len(),
    ensures
        total(jobs, measure) == total(jobs.remove(position), measure) + measure(jobs[position]),
{
    let front = jobs.take(position);
    let back = jobs.skip(position + 1);
    lemma_total_push(front, jobs[position], measure);
    lemma_total_concat(front.push(jobs[position]), back, measure);
    lemma_total_concat(front, back, measure);
    assert(front.push(jobs[position]) + back =~= jobs);
    assert(front + back =~= jobs.remove(position));
}

pub proof fn lemma_total_first(jobs: Seq<JobView>, measure: spec_fn(JobView) -> nat)
    requires
        jobs.len() > 0,
    ensures
        total(jobs, measure) == measure(jobs[0]) + total(jobs.skip(1), measure),
{
    lemma_total_remove(jobs, 0, measure);
    assert(jobs.remove(0) =~= jobs.skip(1));
}

pub proof fn lemma_total_update(
    jobs: Seq<JobView>,
    position: int,
    job: JobView,
    measure: spec_fn(JobView) -> nat,
)
    requires
        0 <= position < jobs.len(),
        measure(job) == measure(jobs[position]),
    ensures
        total(jobs.update(position, job), measure) == total(jobs, measure),
{
    lemma_total_remove(jobs, position, measure);
    lemma_total_remove(jobs.update(position, job), position, measure);
    assert(jobs.update(position, job).remove(position) =~= jobs.remove(position));
}

pub proof fn lemma_remaining_total(jobs: Seq<JobView>, now: u64, measure: spec_fn(JobView) -> nat)
    ensures
        remaining(jobs, now).len() <= jobs.len(),
        total(remaining(jobs, now), measure) <= total(jobs, measure),
    decreases jobs.len(),
{
    if jobs.len() > 0 {
        lemma_remaining_total(jobs.drop_last(), now, measure);
        lemma_total_push(remaining(jobs.drop_last(), now), jobs.last(), measure);
    }
}

pub proof fn lemma_total_prefix(jobs: Seq<JobView>, upto: int, measure: spec_fn(JobView) -> nat)
    requires
        0 <= upto <= jobs.len(),
    ensures
        total(jobs.take(upto), measure) <= total(jobs, measure),
{
    lemma_total_concat(jobs.take(upto), jobs.skip(upto), measure);
    assert(jobs.take(upto) + jobs.skip(upto) =~= jobs);
}

pub proof fn lemma_queued_position(jobs: Seq<JobView>, job_id: u64)
    ensures
        match queued_position(jobs, job_id) {
            Some(position) => {
                &&& 0 <= position < jobs.len()
                &&& jobs[position].job_id == job_id
                &&& jobs[position].operation is Execute
                &&& forall|i: int|
                    0 <= i < position ==> !((#[trigger] jobs[i]).job_id == job_id
                        && jobs[i].operation is Execute)
            },
            None => forall|i: int|
                0 <= i < jobs.len() ==> !((#[trigger] jobs[i]).job_id == job_id
                    && jobs[i].operation is Execute),
        },
    decreases jobs.len(),
{
    if jobs.len() > 0 {
        let rest = jobs.drop_last();
        lemma_queued_position(rest, job_id);
        assert forall|i: int| 0 <= i < rest.len() implies #[trigger] jobs[i] == rest[i] by {}
    }
}

} // verus!
