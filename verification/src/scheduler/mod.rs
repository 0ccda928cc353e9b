//! One mutation of AutoCAD at a time.
//!
//! Operations wait in the order in which they came. The native side takes the first,
//! and the next one only when that is settled. What a call settles it hands back: whoever
//! drives the scheduler tells those who wait, and wakes the native side where a call says
//! so.
use std::collections::VecDeque;

use vstd::prelude::*;

use crate::documents::{Document, DocumentRegistry, DocumentView, NativeDocumentKey};
use crate::exec::diagnostic::bound_diagnostic;
use crate::exec::io::{ExecIo, ValueOutputKind, ValueOutputLease};
use crate::exec::outcome;
use crate::exec::outcome::ExecOutcome;
use crate::exec::state;
use crate::exec::state::{Exec, ExecView, NativeExecStep};
use crate::exec::value::port::{NativeOutputPort, OutputPortMode, PortView, WriteResult};
use crate::exec::ExecStepResult;
use crate::execution::output::{ChunkPoll, OutputView};
use crate::native::{
    NativeActionResult, NativeActionResultKind, NativeDocumentSnapshot,
    NativeExecutionFinalizationObservation,
};
use crate::registry;

pub mod error;
pub mod job;
pub mod laws;
pub mod model;
pub mod operations;
pub mod reservations;
pub mod waiting;

pub use self::error::{Error, HistoryDirection, NativeFailure};
pub use self::job::{
    MutationJob, NativeAction, Operation, OperationOutcome, Settled, BUSY_RETRY_INITIAL,
    BUSY_RETRY_MAX, EXECUTION_START_TIMEOUT,
};
pub use self::model::{MAX_ADMITTED_SOURCE_BYTES, MAX_MUTATION_JOBS};
pub use self::reservations::{
    try_reserve_execution, ExecutionReservation, ReservationPool, MAX_ADMITTED_EXECUTIONS,
};
use self::error::ErrorView;
use self::job::{
    complete_operation, empty_action, finalize, prepare, saves_dwg, JobView, OperationOutcomeView,
    OperationView, OutputEnd, Prepared, SettledView,
};
use self::model::{
    AdmissionView, CancellationView, Refusal, SchedulerView, SubmissionView, TakenView,
};

verus! {

/// What a request to cancel was answered.
#[derive(Clone, Copy, Debug, PartialEq, Eq, Structural)]
pub enum CancelResult {
    Accepted,
    TooLate,
    NotFound,
    Unavailable,
}

/// The open documents, the operations that wait, and the one that runs.
pub struct MutationScheduler {
    documents: DocumentRegistry,
    pending: VecDeque<MutationJob>,
    active: Option<MutationJob>,
    next_job_id: u64,
    ignore_case: bool,
    wake_pending: bool,
    stopping: bool,
    quarantined: bool,
}

/// An execution that was admitted, or settled at once.
pub struct ExecutionAdmission {
    pub job_id: u64,
    pub settled: Option<Settled>,
    pub should_wake: bool,
}

/// An execution that was not admitted, and the place that was held for it.
pub struct RefusedExecution {
    pub error: Error,
    pub reservation: ExecutionReservation,
}

/// What came of handing an operation in.
pub enum Submission {
    Done(Result<OperationOutcome, Error>),
    Queued { job_id: u64, should_wake: bool },
}

/// What the native side is to do, and a job that needed nothing of it.
pub struct Taken {
    pub action: NativeAction,
    pub settled: Option<Settled>,
}

/// What came of a request to cancel.
pub struct Cancellation {
    pub result: CancelResult,
    pub settled: Option<Settled>,
    pub should_wake: bool,
}

/// What a look at the clock brought.
pub struct Elapsed {
    pub settled: Vec<Settled>,
    pub should_wake: bool,
}

/// What a native result is taken for, and whether the native state is in doubt.
#[derive(Debug, PartialEq, Eq)]
pub struct ExecutionFinalizationDecision {
    pub result: NativeActionResult,
    pub quarantine: bool,
}

pub open spec fn job_views(jobs: Seq<MutationJob>) -> Seq<JobView> {
    jobs.map_values(|job: MutationJob| job@)
}

pub open spec fn settled_views(settled: Seq<Settled>) -> Seq<SettledView> {
    settled.map_values(|settled: Settled| settled@)
}

pub open spec fn settled_view(settled: Option<Settled>) -> Option<SettledView> {
    match settled {
        Some(settled) => Some(settled@),
        None => None,
    }
}

pub open spec fn all_well_formed(settled: Seq<Settled>) -> bool {
    forall|i: int| 0 <= i < settled.len() ==> (#[trigger] settled[i]).well_formed()
}

pub open spec fn active_view(active: Option<MutationJob>) -> Option<JobView> {
    match active {
        Some(job) => Some(job@),
        None => None,
    }
}

impl View for MutationScheduler {
    type V = SchedulerView;

    closed spec fn view(&self) -> SchedulerView {
        SchedulerView {
            documents: self.documents@,
            pending: job_views(self.pending@),
            active: active_view(self.active),
            next_job_id: self.next_job_id,
            ignore_case: self.ignore_case,
            wake_pending: self.wake_pending,
            stopping: self.stopping,
            quarantined: self.quarantined,
        }
    }
}

impl View for ExecutionAdmission {
    type V = AdmissionView;

    open spec fn view(&self) -> AdmissionView {
        AdmissionView {
            job_id: self.job_id,
            settled: settled_view(self.settled),
            should_wake: self.should_wake,
        }
    }
}

impl View for Submission {
    type V = SubmissionView;

    open spec fn view(&self) -> SubmissionView {
        match self {
            Submission::Done(result) => SubmissionView::Done(job::result_view(*result)),
            Submission::Queued { job_id, should_wake } => SubmissionView::Queued {
                job_id: *job_id,
                should_wake: *should_wake,
            },
        }
    }
}

impl View for Taken {
    type V = TakenView;

    open spec fn view(&self) -> TakenView {
        TakenView { action: self.action@, settled: settled_view(self.settled) }
    }
}

impl View for Cancellation {
    type V = CancellationView;

    open spec fn view(&self) -> CancellationView {
        CancellationView {
            result: self.result,
            settled: settled_view(self.settled),
            should_wake: self.should_wake,
        }
    }
}

/// The limits hold where nothing was added.
proof fn lemma_no_more(before: SchedulerView, after: SchedulerView)
    requires
        before.bounded(),
        after.job_count() <= before.job_count(),
        after.load(model::execution_measure()) <= before.load(model::execution_measure()),
        after.load(model::source_measure()) <= before.load(model::source_measure()),
    ensures
        after.bounded(),
{
}

/// The limits hold where only the state of the active execution changed.
proof fn lemma_active_changed(before: SchedulerView, after: SchedulerView)
    requires
        before.bounded(),
        after.pending == before.pending,
        before.active is Some,
        after.active matches Some(job) ==> {
            &&& job.operation.execution() is Some <==> before.active->0.operation.execution() is Some
            &&& job.operation.execution() is Some ==> job.operation.execution()->0.source
                == before.active->0.operation.execution()->0.source
        },
    ensures
        after.bounded(),
{
    lemma_no_more(before, after);
}

impl MutationScheduler {
    /// The limits hold, and so do those of each part.
    pub closed spec fn well_formed(&self) -> bool {
        &&& self.documents.well_formed()
        &&& forall|i: int| 0 <= i < self.pending@.len() ==> (#[trigger] self.pending@[i]).well_formed()
        &&& self.active matches Some(job) ==> job.well_formed()
        &&& self@.bounded()
    }

    pub proof fn lemma_bounded(&self)
        requires
            self.well_formed(),
        ensures
            self@.bounded(),
            registry::well_formed::<Document>(self@.documents),
    {
    }

    /// A scheduler without documents or operations. `ignore_case` says whether the file
    /// system tells capitals from small letters.
    pub fn new(ignore_case: bool) -> (scheduler: MutationScheduler)
        ensures
            scheduler.well_formed(),
            scheduler@ == SchedulerView::empty(ignore_case),
    {
        let scheduler = MutationScheduler {
            documents: DocumentRegistry::new(),
            pending: VecDeque::new(),
            active: None,
            next_job_id: 1,
            ignore_case,
            wake_pending: false,
            stopping: false,
            quarantined: false,
        };
        assert(scheduler@ =~~= SchedulerView::empty(ignore_case));
        scheduler
    }

    pub fn idle(&self) -> (result: bool)
        ensures
            result == self@.idle(),
    {
        self.active.is_none() && self.pending.len() == 0 && !self.wake_pending
    }

    pub fn stopping(&self) -> (result: bool)
        ensures
            result == self@.stopping,
    {
        self.stopping
    }

    pub fn quarantined(&self) -> (result: bool)
        ensures
            result == self@.quarantined,
    {
        self.quarantined
    }

    /// The number of executions that wait or run, and the size of their sources.
    pub fn execution_usage(&self) -> (usage: (usize, usize))
        requires
            self.well_formed(),
        ensures
            usage.0 == self@.load(model::execution_measure()),
            usage.1 == self@.load(model::source_measure()),
    {
        let ghost pending = self@.pending;
        let mut count: usize = 0;
        let mut bytes: usize = 0;
        let mut index: usize = 0;
        while index < self.pending.len()
            invariant
                self.well_formed(),
                pending == self@.pending,
                pending.len() == self.pending@.len(),
                index <= pending.len(),
                count == model::total(pending.take(index as int), model::execution_measure()),
                bytes == model::total(pending.take(index as int), model::source_measure()),
            decreases pending.len() - index,
        {
            let ghost next = pending.take(index + 1);
            proof {
                assert(next.drop_last() =~= pending.take(index as int));
                assert(next.last() == self.pending@[index as int]@);
                model::lemma_total_prefix(pending, index + 1, model::execution_measure());
                model::lemma_total_prefix(pending, index + 1, model::source_measure());
            }
            if let Operation::Execute { execution, .. } = &self.pending[index].operation {
                count = count + 1;
                bytes = bytes + execution.source_bytes();
            }
            index = index + 1;
        }
        assert(pending.take(index as int) =~= pending);
        if let Some(job) = &self.active {
            if let Operation::Execute { execution, .. } = &job.operation {
                count = count + 1;
                bytes = bytes + execution.source_bytes();
            }
        }
        (count, bytes)
    }

    /// The number of jobs that wait or run.
    pub fn mutation_job_count(&self) -> (count: usize)
        requires
            self.well_formed(),
        ensures
            count == self@.job_count(),
    {
        if self.active.is_some() {
            self.pending.len() + 1
        } else {
            self.pending.len()
        }
    }

    /// Says whether the native side has to be woken, and remembers that it is.
    pub fn request_wake(&mut self) -> (should_wake: bool)
        requires
            old(self).well_formed(),
        ensures
            final(self).well_formed(),
            should_wake == old(self)@.wakes(),
            final(self)@ == old(self)@.woken(),
    {
        let ghost before = self@;
        if self.stopping || self.quarantined || self.active.is_some() || self.pending.len() == 0
            || self.wake_pending {
            assert(self@ =~~= before.woken());
            return false;
        }
        assert(before.pending[0] == self.pending@[0]@);
        if self.pending[0].waiting_for_readiness {
            assert(self@ =~~= before.woken());
            return false;
        }
        self.wake_pending = true;
        proof {
            assert(self@ =~~= before.woken());
            lemma_no_more(before, self@);
        }
        true
    }

    fn take_job_id(&mut self) -> (job_id: u64)
        ensures
            job_id == old(self)@.next_job_id,
            final(self)@ == (SchedulerView {
                next_job_id: old(self)@.following_id(),
                ..old(self)@
            }),
            old(self).well_formed() ==> final(self).well_formed(),
    {
        let ghost before = self@;
        let job_id: u64 = self.next_job_id;
        self.next_job_id =
        if job_id == u64::MAX {
            0
        } else {
            job_id + 1
        };
        proof {
            assert(self@ =~~= (SchedulerView { next_job_id: before.following_id(), ..before }));
            if before.bounded() {
                lemma_no_more(before, self@);
            }
        }
        job_id
    }

    /// Why no operation at all is taken.
    fn closed_for(&self) -> (error: Option<Error>)
        ensures
            match error {
                Some(error) => self@.closed_for() == Some(error@),
                None => self@.closed_for() is None,
            },
    {
        if self.stopping {
            Some(Error::PluginStopping)
        } else if self.quarantined {
            Some(Error::NativeMutationStateUnknown)
        } else {
            None
        }
    }
}

/// The open documents.
pub fn list(scheduler: &MutationScheduler) -> (listed: Vec<Document>)
    ensures
        listed@.len() == scheduler@.documents.len(),
        forall|i: int|
            #![trigger listed@[i]]
            0 <= i < listed@.len() ==> listed@[i]@ == scheduler@.documents[i].document,
{
    scheduler.documents.list()
}

/// Takes over what the native side reports of the open documents.
pub fn replace_document_snapshot(
    scheduler: &mut MutationScheduler,
    documents: Vec<NativeDocumentSnapshot>,
)
    requires
        old(scheduler).well_formed(),
        registry::has_room::<Document>(old(scheduler)@.documents, documents@),
    ensures
        final(scheduler).well_formed(),
        registry::succeeds::<Document>(
            old(scheduler)@.documents,
            documents@,
            final(scheduler)@.documents,
        ),
        final(scheduler)@ == (SchedulerView {
            documents: final(scheduler)@.documents,
            ..old(scheduler)@
        }),
{
    let ghost before = scheduler@;
    scheduler.documents.replace(documents);
    proof {
        assert(scheduler@ =~~= (SchedulerView { documents: scheduler@.documents, ..before }));
        lemma_no_more(before, scheduler@);
    }
}

/// Takes operations again. A native state that is in doubt stays so.
pub fn start(scheduler: &mut MutationScheduler)
    requires
        old(scheduler).well_formed(),
    ensures
        final(scheduler).well_formed(),
        final(scheduler)@ == (SchedulerView { stopping: false, ..old(scheduler)@ }),
{
    let ghost before = scheduler@;
    scheduler.stopping = false;
    proof {
        assert(scheduler@ =~~= (SchedulerView { stopping: false, ..before }));
        lemma_no_more(before, scheduler@);
    }
}

impl Refusal {
    fn error(&self) -> (error: Error)
        ensures
            error@ == self.reason(),
    {
        match *self {
            Refusal::PluginStopping => Error::PluginStopping,
            Refusal::NativeMutationStateUnknown => Error::NativeMutationStateUnknown,
            Refusal::ScheduleFailed(status) => Error::ScheduleFailed(status),
        }
    }
}

/// Turns jobs away.
fn turn_away(jobs: VecDeque<MutationJob>, refusal: Refusal) -> (settled: Vec<Settled>)
    requires
        forall|i: int| 0 <= i < jobs@.len() ==> (#[trigger] jobs@[i]).well_formed(),
    ensures
        all_well_formed(settled@),
        settled_views(settled@) == model::turned_away(job_views(jobs@), refusal),
{
    let ghost given = jobs@;
    let mut jobs = jobs;
    let mut settled: Vec<Settled> = Vec::new();
    let ghost expected = model::turned_away(job_views(given), refusal);
    while jobs.len() > 0
        invariant
            jobs@.len() + settled@.len() == given.len(),
            jobs@ == given.skip(settled@.len() as int),
            expected == model::turned_away(job_views(given), refusal),
            forall|i: int| 0 <= i < jobs@.len() ==> (#[trigger] jobs@[i]).well_formed(),
            all_well_formed(settled@),
            settled_views(settled@) == expected.take(settled@.len() as int),
        decreases jobs@.len(),
    {
        let ghost place = settled@.len() as int;
        let ghost waiting = jobs@;
        let ghost done = settled@;
        if let Some(job) = jobs.pop_front() {
            proof {
                assert(job == given[place]);
                assert forall|i: int| 0 <= i < jobs@.len() implies (
                #[trigger] jobs@[i]).well_formed() by {
                    assert(jobs@[i] == waiting[i + 1]);
                }
            }
            let outcome: Result<OperationOutcome, Error> = Err(refusal.error());
            settled.push(job.settle(outcome, OutputEnd::Stopped));
            proof {
                assert(jobs@ =~= given.skip(place + 1));
                assert(settled_views(settled@) =~= settled_views(done).push(expected[place]));
                assert(expected.take(place + 1) =~= expected.take(place).push(expected[place]));
            }
        }
    }
    assert(expected.take(given.len() as int) =~= expected);
    settled
}

/// Turns away what waits, and cancels an active execution as far as it still can be.
pub fn stop(scheduler: &mut MutationScheduler) -> (settled: Vec<Settled>)
    requires
        old(scheduler).well_formed(),
    ensures
        final(scheduler).well_formed(),
        final(scheduler)@ == old(scheduler)@.stopped(),
        all_well_formed(settled@),
        settled_views(settled@) == model::turned_away(
            old(scheduler)@.pending,
            Refusal::PluginStopping,
        ),
{
    let ghost before = scheduler@;
    scheduler.stopping = true;
    scheduler.wake_pending = false;
    if let Some(job) = &mut scheduler.active {
        if let Operation::Execute { execution, .. } = &mut job.operation {
            let _ = execution.request_cancel();
            execution.output_sink().stop();
        }
    }
    let mut pending: VecDeque<MutationJob> = VecDeque::new();
    std::mem::swap(&mut pending, &mut scheduler.pending);
    proof {
        assert(scheduler@ =~~= before.stopped());
        lemma_no_more(before, before.stopped());
    }
    turn_away(pending, Refusal::PluginStopping)
}

/// The native side could not be woken: what waits is turned away.
pub fn wake_failed(scheduler: &mut MutationScheduler, status: i32) -> (settled: Vec<Settled>)
    requires
        old(scheduler).well_formed(),
    ensures
        final(scheduler).well_formed(),
        final(scheduler)@ == (SchedulerView {
            pending: Seq::empty(),
            wake_pending: false,
            ..old(scheduler)@
        }),
        all_well_formed(settled@),
        settled_views(settled@) == model::turned_away(
            old(scheduler)@.pending,
            Refusal::ScheduleFailed(status),
        ),
{
    let ghost before = scheduler@;
    scheduler.wake_pending = false;
    let mut pending: VecDeque<MutationJob> = VecDeque::new();
    std::mem::swap(&mut pending, &mut scheduler.pending);
    proof {
        assert(scheduler@ =~~= (SchedulerView {
            pending: Seq::empty(),
            wake_pending: false,
            ..before
        }));
        lemma_no_more(before, scheduler@);
    }
    turn_away(pending, Refusal::ScheduleFailed(status))
}

/// Says whether the native side has to be woken.
pub fn try_claim_native_action_wake(scheduler: &mut MutationScheduler) -> (should_wake: bool)
    requires
        old(scheduler).well_formed(),
    ensures
        final(scheduler).well_formed(),
        should_wake == old(scheduler)@.wakes(),
        final(scheduler)@ == old(scheduler)@.woken(),
{
    scheduler.request_wake()
}

/// Hands an operation in that is no execution.
pub fn submit_operation(scheduler: &mut MutationScheduler, operation: Operation) -> (submission:
    Submission)
    requires
        old(scheduler).well_formed(),
        !(operation is Execute),
    ensures
        final(scheduler).well_formed(),
        exists|dwg: bool| #[trigger]
            operation@.save_path_is(old(scheduler)@.documents, dwg) && (
            final(scheduler)@,
            submission@,
        ) == old(scheduler)@.submitted(operation@, dwg),
{
    let ghost before = scheduler@;
    let ghost requested = operation@;
    let dwg = saves_dwg(&operation, &scheduler.documents);
    assert(requested.save_path_is(before.documents, dwg));
    if let Some(error) = scheduler.closed_for() {
        return Submission::Done(Err(error));
    }
    if scheduler.mutation_job_count() >= MAX_MUTATION_JOBS {
        return Submission::Done(Err(Error::MutationCapacity));
    }
    if scheduler.idle() {
        if let Prepared::Immediate(outcome) = prepare(
            &operation,
            &scheduler.documents,
            scheduler.ignore_case,
            dwg,
        ) {
            return Submission::Done(outcome);
        }
    }
    let job_id: u64 = scheduler.take_job_id();
    let job = MutationJob {
        job_id,
        operation,
        native_target: None,
        start_deadline: None,
        waiting_for_readiness: false,
        retry_at: None,
        retry_delay: BUSY_RETRY_INITIAL,
        reservation: None,
    };
    let ghost queued = before.enqueued(before.new_job(requested, None, None));
    let ghost waiting = scheduler.pending@;
    scheduler.pending.push_back(job);
    proof {
        assert(job_views(scheduler.pending@) =~= job_views(waiting).push(job@));
        assert(scheduler@ =~~= queued);
        model::lemma_total_push(before.pending, job@, model::execution_measure());
        model::lemma_total_push(before.pending, job@, model::source_measure());
    }
    let should_wake = scheduler.request_wake();
    Submission::Queued { job_id, should_wake }
}

/// Hands in that a file is to be opened.
pub fn open(scheduler: &mut MutationScheduler, path: String) -> (submission: Submission)
    requires
        old(scheduler).well_formed(),
    ensures
        final(scheduler).well_formed(),
        (final(scheduler)@, submission@) == old(scheduler)@.submitted(
            OperationView::Open { path: path@ },
            false,
        ),
{
    submit_operation(scheduler, Operation::Open { path })
}

/// Hands in that a document is to be saved.
pub fn save(scheduler: &mut MutationScheduler, id: String) -> (submission: Submission)
    requires
        old(scheduler).well_formed(),
    ensures
        final(scheduler).well_formed(),
        exists|dwg: bool| #[trigger]
            (OperationView::Save { id: id@ }).save_path_is(old(scheduler)@.documents, dwg) && (
            final(scheduler)@,
            submission@,
        ) == old(scheduler)@.submitted(OperationView::Save { id: id@ }, dwg),
{
    submit_operation(scheduler, Operation::Save { id })
}

/// Hands in that a document is to be closed.
pub fn close(scheduler: &mut MutationScheduler, id: String, discard: bool) -> (submission:
    Submission)
    requires
        old(scheduler).well_formed(),
    ensures
        final(scheduler).well_formed(),
        (final(scheduler)@, submission@) == old(scheduler)@.submitted(
            OperationView::Close { id: id@, discard },
            false,
        ),
{
    submit_operation(scheduler, Operation::Close { id, discard })
}

/// Hands in that the last step on a document is to be undone.
pub fn undo(scheduler: &mut MutationScheduler, id: String) -> (submission: Submission)
    requires
        old(scheduler).well_formed(),
    ensures
        final(scheduler).well_formed(),
        (final(scheduler)@, submission@) == old(scheduler)@.submitted(
            OperationView::History { id: id@, direction: HistoryDirection::Undo },
            false,
        ),
{
    submit_operation(scheduler, Operation::History { id, direction: HistoryDirection::Undo })
}

/// Hands in that the next step on a document is to be done again.
pub fn redo(scheduler: &mut MutationScheduler, id: String) -> (submission: Submission)
    requires
        old(scheduler).well_formed(),
    ensures
        final(scheduler).well_formed(),
        (final(scheduler)@, submission@) == old(scheduler)@.submitted(
            OperationView::History { id: id@, direction: HistoryDirection::Redo },
            false,
        ),
{
    submit_operation(scheduler, Operation::History { id, direction: HistoryDirection::Redo })
}

/// Hands an execution in.
pub fn admit_execution(
    scheduler: &mut MutationScheduler,
    id: String,
    execution: Exec,
    reservation: ExecutionReservation,
    now: u64,
) -> (result: Result<ExecutionAdmission, RefusedExecution>)
    requires
        old(scheduler).well_formed(),
        execution.well_formed(),
        now + EXECUTION_START_TIMEOUT <= u64::MAX,
    ensures
        final(scheduler).well_formed(),
        match result {
            Ok(admission) => {
                &&& old(scheduler)@.refusal(execution@) is None
                &&& (final(scheduler)@, admission@) == old(scheduler)@.admitted(
                    id@,
                    execution@,
                    reservation,
                    now,
                )
                &&& admission.settled matches Some(settled) ==> settled.well_formed()
            },
            Err(refused) => {
                &&& old(scheduler)@.refusal(execution@) == Some(refused.error@)
                &&& refused.reservation == reservation
                &&& final(scheduler)@ == old(scheduler)@.declined()
            },
        },
{
    let ghost before = scheduler@;
    let ghost running = execution@;
    let deadline: u64 = now + EXECUTION_START_TIMEOUT;
    if let Some(error) = scheduler.closed_for() {
        return Err(RefusedExecution { error, reservation });
    }
    let job_id: u64 = scheduler.take_job_id();
    let over = execution.outcome().is_some();
    if !over {
        if scheduler.mutation_job_count() >= MAX_MUTATION_JOBS {
            return Err(RefusedExecution { error: Error::MutationCapacity, reservation });
        }
        let (execution_count, source_bytes) = scheduler.execution_usage();
        if execution_count >= MAX_ADMITTED_EXECUTIONS || execution.source_bytes()
            > MAX_ADMITTED_SOURCE_BYTES - source_bytes {
            return Err(RefusedExecution { error: Error::ExecutionCapacity, reservation });
        }
    }
    let job = MutationJob {
        job_id,
        operation: Operation::Execute { id, execution },
        native_target: None,
        start_deadline: Some(deadline),
        waiting_for_readiness: false,
        retry_at: None,
        retry_delay: BUSY_RETRY_INITIAL,
        reservation: Some(reservation),
    };
    if over {
        let outcome = match prepare(
            &job.operation,
            &scheduler.documents,
            scheduler.ignore_case,
            false,
        ) {
            Prepared::Immediate(outcome) => outcome,
            Prepared::Native(_) => Err(Error::ExecutionNotFinished),
        };
        return Ok(
            ExecutionAdmission {
                job_id,
                settled: Some(job.settle(outcome, OutputEnd::Finished)),
                should_wake: false,
            },
        );
    }
    let ghost queued = before.enqueued(job@);
    let ghost waiting = scheduler.pending@;
    scheduler.pending.push_back(job);
    proof {
        assert(job_views(scheduler.pending@) =~= job_views(waiting).push(job@));
        assert(scheduler@ =~~= queued);
        model::lemma_total_push(before.pending, job@, model::execution_measure());
        model::lemma_total_push(before.pending, job@, model::source_measure());
    }
    let should_wake = scheduler.request_wake();
    Ok(ExecutionAdmission { job_id, settled: None, should_wake })
}

impl ExecutionAdmission {
    pub fn into_parts(self) -> (parts: (u64, Option<Settled>, bool))
        ensures
            parts == (self.job_id, self.settled, self.should_wake),
    {
        (self.job_id, self.settled, self.should_wake)
    }
}

/// Gives the native side its next work.
pub fn take_native_action(scheduler: &mut MutationScheduler, now: u64) -> (taken: Taken)
    requires
        old(scheduler).well_formed(),
    ensures
        final(scheduler).well_formed(),
        taken.settled matches Some(settled) ==> settled.well_formed(),
        exists|dwg: bool| #[trigger]
            old(scheduler)@.first_save_path_is(dwg) && (final(scheduler)@, taken@) == old(
                scheduler,
            )@.taken(now, dwg),
{
    let ghost before = scheduler@;
    scheduler.wake_pending = false;
    let ghost rested = SchedulerView { wake_pending: false, ..before };
    proof {
        assert(scheduler@ =~~= rested);
        lemma_no_more(before, rested);
        before.lemma_first_save_path();
    }
    if scheduler.stopping || scheduler.quarantined || scheduler.active.is_some() {
        return Taken { action: empty_action(), settled: None };
    }
    if scheduler.pending.len() == 0 {
        return Taken { action: empty_action(), settled: None };
    }
    let ghost waiting = scheduler.pending@;
    assert(before.pending[0] == waiting[0]@);
    if scheduler.pending[0].waiting_for_readiness {
        return Taken { action: empty_action(), settled: None };
    }
    let mut job = match scheduler.pending.pop_front() {
        Some(job) => job,
        None => {
            return Taken { action: empty_action(), settled: None };
        },
    };
    let ghost rest = SchedulerView { pending: before.pending.skip(1), ..rested };
    proof {
        assert(job == waiting[0]);
        assert(job_views(scheduler.pending@) =~= before.pending.skip(1));
        assert(scheduler@ =~~= rest);
        model::lemma_total_first(before.pending, model::execution_measure());
        model::lemma_total_first(before.pending, model::source_measure());
        lemma_no_more(before, rest);
        assert forall|i: int| 0 <= i < scheduler.pending@.len() implies (
        #[trigger] scheduler.pending@[i]).well_formed() by {
            assert(scheduler.pending@[i] == waiting[i + 1]);
        }
    }
    let _ = job.expire_if_due(now);
    let ghost first = before.pending[0].at(now);
    let dwg = saves_dwg(&job.operation, &scheduler.documents);
    assert(before.first_save_path_is(dwg));
    match prepare(&job.operation, &scheduler.documents, scheduler.ignore_case, dwg) {
        Prepared::Immediate(outcome) => Taken {
            action: empty_action(),
            settled: Some(job.settle(outcome, OutputEnd::Finished)),
        },
        Prepared::Native(action) => {
            let mut action = action;
            action.job_id = job.job_id;
            job.native_target =
            if action.document_token != 0 || action.database_token != 0 {
                Some(
                    NativeDocumentKey {
                        document_token: action.document_token,
                        database_token: action.database_token,
                    },
                )
            } else {
                None
            };
            scheduler.active = Some(job);
            proof {
                assert(scheduler@ =~~= before.taken(now, dwg).0);
                lemma_no_more(before, scheduler@);
            }
            Taken { action, settled: None }
        },
    }
}

pub fn native_result_requires_quarantine(kind: NativeActionResultKind) -> (result: bool)
    ensures
        result == model::requires_quarantine(kind),
{
    match kind {
        NativeActionResultKind::DocumentContextRestoreFailed
        | NativeActionResultKind::ExecutionBridgeFinalizationFailed
        | NativeActionResultKind::ExecutionBridgeSymbolsClearFailed => true,
        _ => false,
    }
}

/// Takes the report of the native side on the active job.
pub fn complete_native_action(
    scheduler: &mut MutationScheduler,
    job_id: u64,
    result: NativeActionResult,
    now: u64,
) -> (settled: Vec<Settled>)
    requires
        old(scheduler).well_formed(),
        now + BUSY_RETRY_MAX <= u64::MAX,
    ensures
        final(scheduler).well_formed(),
        all_well_formed(settled@),
        (final(scheduler)@, settled_views(settled@)) == old(scheduler)@.completed(
            job_id,
            result@,
            model::requires_quarantine(result.kind),
            now,
        ),
{
    let quarantine = native_result_requires_quarantine(result.kind);
    complete_native_action_with_quarantine(scheduler, job_id, result, quarantine, now)
}

/// Takes the report of the native side on the active job; `quarantine` says whether the
/// native state is in doubt.
pub fn complete_native_action_with_quarantine(
    scheduler: &mut MutationScheduler,
    job_id: u64,
    result: NativeActionResult,
    quarantine: bool,
    now: u64,
) -> (settled: Vec<Settled>)
    requires
        old(scheduler).well_formed(),
        now + BUSY_RETRY_MAX <= u64::MAX,
    ensures
        final(scheduler).well_formed(),
        all_well_formed(settled@),
        (final(scheduler)@, settled_views(settled@)) == old(scheduler)@.completed(
            job_id,
            result@,
            quarantine,
            now,
        ),
{
    let ghost before = scheduler@;
    let ghost reported = result@;
    let mut result = result;
    bound_diagnostic(&mut result.native_detail);
    let mut settled: Vec<Settled> = Vec::new();
    assert(settled_views(settled@) =~= Seq::<SettledView>::empty());
    let mut job = match scheduler.active.take() {
        Some(job) => job,
        None => {
            assert(scheduler@ =~~= before);
            return settled;
        },
    };
    if job.job_id != job_id {
        scheduler.active = Some(job);
        assert(scheduler@ =~~= before);
        return settled;
    }
    let ghost active = job@;
    let mut settled_before_start = false;
    if result.kind == NativeActionResultKind::NotQuiescent
        && job.execution_has_not_handed_off_form() {
        if job.finish_cancel_before_start() || job.expire_if_due(now)
            || job.execution_has_outcome() {
            settled_before_start = true;
        } else {
            job.native_target = None;
            job.defer_for_readiness(now);
            let ghost waiting = scheduler.pending@;
            scheduler.pending.push_front(job);
            proof {
                assert(job@ =~= active.deferred(now));
                assert(job_views(scheduler.pending@) =~= seq![job@] + job_views(waiting));
                assert(scheduler@ =~~= before.completed(job_id, reported, quarantine, now).0);
                model::lemma_total_first(scheduler@.pending, model::execution_measure());
                model::lemma_total_first(scheduler@.pending, model::source_measure());
                assert(scheduler@.pending.skip(1) =~= before.pending);
                lemma_no_more(before, scheduler@);
                assert forall|i: int| 0 <= i < scheduler.pending@.len() implies (
                #[trigger] scheduler.pending@[i]).well_formed() by {
                    if i > 0 {
                        assert(scheduler.pending@[i] == waiting[i - 1]);
                    }
                }
            }
            return settled;
        }
    }
    let native_target = job.native_target;
    let outcome = if settled_before_start {
        finalize(&mut job.operation, &scheduler.documents, scheduler.ignore_case, native_target)
    } else {
        complete_operation(
            result,
            &mut job.operation,
            &scheduler.documents,
            scheduler.ignore_case,
            native_target,
        )
    };
    let ghost first = active.settled(job::result_view(outcome), OutputEnd::Finished);
    settled.push(job.settle(outcome, OutputEnd::Finished));
    proof {
        assert(settled_views(settled@) =~= seq![first]);
    }
    if quarantine {
        scheduler.quarantined = true;
        scheduler.wake_pending = false;
        let mut pending: VecDeque<MutationJob> = VecDeque::new();
        std::mem::swap(&mut pending, &mut scheduler.pending);
        proof {
            assert(scheduler@ =~~= before.completed(job_id, reported, quarantine, now).0);
            lemma_no_more(before, scheduler@);
        }
        let mut others = turn_away(pending, Refusal::NativeMutationStateUnknown);
        let ghost one = settled@;
        let ghost rest = others@;
        settled.append(&mut others);
        proof {
            assert(settled_views(settled@) =~= settled_views(one) + settled_views(rest));
        }
    } else {
        proof {
            assert(scheduler@ =~~= before.completed(job_id, reported, quarantine, now).0);
            lemma_no_more(before, scheduler@);
        }
    }
    settled
}

impl NativeExecutionFinalizationObservation {
    fn native_state_unproved(&self) -> (result: bool)
        ensures
            result == self.unproved(),
    {
        self.undo_group_may_be_open || self.bridge_symbols_may_be_retained
            || self.staged_form_may_be_retained || self.value_writer_active
            || self.terminal_cleanup_failed
    }

    fn only_symbol_cleanup_unproved(&self) -> (result: bool)
        ensures
            result == self.only_symbols_unproved(),
    {
        (self.bridge_symbols_may_be_retained || self.terminal_cleanup_failed)
            && !self.undo_group_may_be_open && !self.staged_form_may_be_retained
            && !self.value_writer_active
    }
}

/// What the end of an execution is taken for, given what the native side knows of its
/// state.
pub fn classify_execution_finalization(
    result: NativeActionResult,
    observation: NativeExecutionFinalizationObservation,
) -> (decision: ExecutionFinalizationDecision)
    ensures
        decision.quarantine == (observation.unproved() || model::requires_quarantine(result.kind)),
        decision.result.kind == model::classified_kind(result.kind, observation),
        decision.result.native_status == result.native_status,
        decision.result.native_detail@ == result.native_detail@,
{
    let mut result = result;
    let native_state_unproved = observation.native_state_unproved();
    let quarantine = native_state_unproved || native_result_requires_quarantine(result.kind);
    let preserve_symbol_failure = result.kind
        == NativeActionResultKind::ExecutionBridgeSymbolsClearFailed
        && observation.only_symbol_cleanup_unproved();
    if native_state_unproved && result.kind != NativeActionResultKind::DocumentContextRestoreFailed
        && !preserve_symbol_failure {
        result.kind = NativeActionResultKind::ExecutionBridgeFinalizationFailed;
    }
    ExecutionFinalizationDecision { result, quarantine }
}

/// Takes the report of the native side on an execution that has ended.
pub fn complete_execution_native_action(
    scheduler: &mut MutationScheduler,
    job_id: u64,
    result: NativeActionResult,
    observation: NativeExecutionFinalizationObservation,
    now: u64,
) -> (settled: Vec<Settled>)
    requires
        old(scheduler).well_formed(),
        now + BUSY_RETRY_MAX <= u64::MAX,
    ensures
        final(scheduler).well_formed(),
        all_well_formed(settled@),
        (final(scheduler)@, settled_views(settled@)) == old(scheduler)@.completed(
            job_id,
            crate::native::ActionResultView {
                kind: model::classified_kind(result.kind, observation),
                ..result@
            },
            observation.unproved() || model::requires_quarantine(result.kind),
            now,
        ),
{
    let ghost reported = result@;
    let decision = classify_execution_finalization(result, observation);
    assert(decision.result@ =~= (crate::native::ActionResultView {
        kind: model::classified_kind(reported.kind, observation),
        ..reported
    }));
    complete_native_action_with_quarantine(
        scheduler,
        job_id,
        decision.result,
        decision.quarantine,
        now,
    )
}

/// Asks for an execution to be cancelled.
pub fn cancel_execution(scheduler: &mut MutationScheduler, job_id: u64) -> (cancellation:
    Cancellation)
    requires
        old(scheduler).well_formed(),
    ensures
        final(scheduler).well_formed(),
        cancellation.settled matches Some(settled) ==> settled.well_formed(),
        (final(scheduler)@, cancellation@) == old(scheduler)@.cancelled(job_id),
{
    let ghost before = scheduler@;
    let mut is_active = false;
    if let Some(job) = &scheduler.active {
        is_active = job.job_id == job_id;
    }
    if is_active {
        let mut result = CancelResult::NotFound;
        if let Some(job) = &mut scheduler.active {
            if let Operation::Execute { execution, .. } = &mut job.operation {
                if execution.request_cancel() {
                    execution.output_sink().request_cancel();
                    result = CancelResult::Accepted;
                } else {
                    result = CancelResult::TooLate;
                }
            }
        }
        proof {
            assert(scheduler@ =~~= before.cancelled(job_id).0);
            lemma_active_changed(before, scheduler@);
        }
        return Cancellation { result, settled: None, should_wake: false };
    }
    let position = match queued_execution(scheduler, job_id) {
        Some(position) => position,
        None => {
            return Cancellation {
                result: CancelResult::NotFound,
                settled: None,
                should_wake: false,
            };
        },
    };
    let ghost waiting = scheduler.pending@;
    proof {
        model::lemma_queued_position(before.pending, job_id);
        assert(before.pending[position as int] == waiting[position as int]@);
    }
    let mut job = match scheduler.pending.remove(position) {
        Some(job) => job,
        None => {
            return Cancellation {
                result: CancelResult::NotFound,
                settled: None,
                should_wake: false,
            };
        },
    };
    let mut cancelled = false;
    if let Operation::Execute { execution, .. } = &mut job.operation {
        cancelled = execution.cancel_before_start();
    }
    if !cancelled {
        scheduler.pending.insert(position, job);
        proof {
            assert(job@ =~~= before.pending[position as int]);
            assert(job_views(scheduler.pending@) =~= before.pending);
            assert(scheduler@ =~~= before);
            assert forall|i: int| 0 <= i < scheduler.pending@.len() implies (
            #[trigger] scheduler.pending@[i]).well_formed() by {
                if i != position {
                    assert(scheduler.pending@[i] == waiting[i]);
                }
            }
        }
        return Cancellation { result: CancelResult::TooLate, settled: None, should_wake: false };
    }
    let ghost rest = SchedulerView { pending: before.pending.remove(position as int), ..before };
    proof {
        assert(job_views(scheduler.pending@) =~= before.pending.remove(position as int));
        assert(scheduler@ =~~= rest);
        model::lemma_total_remove(before.pending, position as int, model::execution_measure());
        model::lemma_total_remove(before.pending, position as int, model::source_measure());
        lemma_no_more(before, rest);
        assert forall|i: int| 0 <= i < scheduler.pending@.len() implies (
        #[trigger] scheduler.pending@[i]).well_formed() by {
            if i < position {
                assert(scheduler.pending@[i] == waiting[i]);
            } else {
                assert(scheduler.pending@[i] == waiting[i + 1]);
            }
        }
    }
    let should_wake = scheduler.request_wake();
    let outcome: Result<OperationOutcome, Error> = Ok(
        OperationOutcome::Execution(ExecOutcome::Cancelled),
    );
    Cancellation {
        result: CancelResult::Accepted,
        settled: Some(job.settle(outcome, OutputEnd::Cancelled)),
        should_wake,
    }
}

/// Where an execution waits.
fn queued_execution(scheduler: &MutationScheduler, job_id: u64) -> (position: Option<usize>)
    ensures
        match position {
            Some(position) => model::queued_position(scheduler@.pending, job_id) == Some(
                position as int,
            ),
            None => model::queued_position(scheduler@.pending, job_id) is None,
        },
{
    let ghost pending = scheduler@.pending;
    let mut index: usize = 0;
    proof {
        model::lemma_queued_position(pending, job_id);
    }
    while index < scheduler.pending.len()
        invariant
            index <= scheduler.pending@.len(),
            pending == job_views(scheduler.pending@),
            forall|i: int|
                0 <= i < index ==> !((#[trigger] pending[i]).job_id == job_id
                    && pending[i].operation is Execute),
            match model::queued_position(pending, job_id) {
                Some(position) => {
                    &&& 0 <= position < pending.len()
                    &&& pending[position].job_id == job_id
                    &&& pending[position].operation is Execute
                    &&& forall|i: int|
                        0 <= i < position ==> !((#[trigger] pending[i]).job_id == job_id
                            && pending[i].operation is Execute)
                },
                None => forall|i: int|
                    0 <= i < pending.len() ==> !((#[trigger] pending[i]).job_id == job_id
                        && pending[i].operation is Execute),
            },
        decreases scheduler.pending@.len() - index,
    {
        let job = &scheduler.pending[index];
        assert(pending[index as int] == job@);
        let mut found = false;
        if job.job_id == job_id {
            if let Operation::Execute { .. } = &job.operation {
                found = true;
            }
        }
        if found {
            return Some(index);
        }
        index = index + 1;
    }
    None
}

fn sooner(left: Option<u64>, right: Option<u64>) -> (earlier: Option<u64>)
    ensures
        earlier is None <==> left is None && right is None,
        earlier matches Some(time) ==> left == Some(time) || right == Some(time),
        (earlier is Some && left is Some) ==> earlier->0 <= left->0,
        (earlier is Some && right is Some) ==> earlier->0 <= right->0,
{
    match (left, right) {
        (Some(left), Some(right)) => if left <= right {
            Some(left)
        } else {
            Some(right)
        },
        (Some(left), None) => Some(left),
        (None, right) => right,
    }
}

/// When the clock has to be looked at next.
pub fn next_timer_deadline(scheduler: &MutationScheduler) -> (deadline: Option<u64>)
    ensures
        match deadline {
            Some(deadline) => scheduler@.timer(deadline) && forall|time: u64| #[trigger]
                scheduler@.timer(time) ==> deadline <= time,
            None => forall|time: u64| !#[trigger] scheduler@.timer(time),
        },
{
    let ghost view = scheduler@;
    let mut earliest: Option<u64> = None;
    let mut index: usize = 0;
    while index < scheduler.pending.len()
        invariant
            index <= scheduler.pending@.len(),
            view == scheduler@,
            view.pending == job_views(scheduler.pending@),
            earliest matches Some(time) ==> exists|i: int| #[trigger] view.start_timer(i, time),
            forall|i: int, time: u64|
                i < index && #[trigger] view.start_timer(i, time) ==> earliest is Some
                    && earliest->0 <= time,
        decreases scheduler.pending@.len() - index,
    {
        let job = &scheduler.pending[index];
        assert(view.pending[index as int] == job@);
        if job.execution_start_pending() {
            if let Some(deadline) = job.start_deadline {
                assert(view.start_timer(index as int, deadline));
                earliest = sooner(earliest, Some(deadline));
            }
        }
        index = index + 1;
    }
    if let Some(job) = &scheduler.active {
        if job.execution_start_pending() {
            earliest = sooner(earliest, job.start_deadline);
        }
    }
    if scheduler.pending.len() > 0 {
        let head = &scheduler.pending[0];
        assert(view.pending[0] == head@);
        if head.waiting_for_readiness {
            earliest = sooner(earliest, head.retry_at);
        }
    }
    earliest
}

/// Looks at the clock: ends executions that did not start in time, and tries a busy
/// document again when its time has come.
pub fn process_due_timers(scheduler: &mut MutationScheduler, now: u64) -> (elapsed: Elapsed)
    requires
        old(scheduler).well_formed(),
    ensures
        final(scheduler).well_formed(),
        all_well_formed(elapsed.settled@),
        settled_views(elapsed.settled@) == model::lapsed(
            old(scheduler)@.pending,
            now,
            old(scheduler)@.documents,
            old(scheduler)@.ignore_case,
        ),
        elapsed.should_wake == old(scheduler)@.at(now).wakes(),
        final(scheduler)@ == old(scheduler)@.at(now).woken(),
{
    let ghost before = scheduler@;
    if let Some(job) = &mut scheduler.active {
        let _ = job.expire_if_due(now);
    }
    let ghost waiting = scheduler.pending@;
    let ghost jobs = before.pending;
    let mut queue: VecDeque<MutationJob> = VecDeque::new();
    std::mem::swap(&mut queue, &mut scheduler.pending);
    let mut kept: VecDeque<MutationJob> = VecDeque::new();
    let mut settled: Vec<Settled> = Vec::new();
    let ghost mut done: int = 0;
    assert(jobs.take(0) =~= Seq::<JobView>::empty());
    assert(job_views(kept@) =~= Seq::<JobView>::empty());
    assert(settled_views(settled@) =~= Seq::<SettledView>::empty());
    while queue.len() > 0
        invariant
            0 <= done <= waiting.len(),
            jobs == job_views(waiting),
            queue@ == waiting.skip(done),
            forall|i: int| 0 <= i < waiting.len() ==> (#[trigger] waiting[i]).well_formed(),
            forall|i: int| 0 <= i < kept@.len() ==> (#[trigger] kept@[i]).well_formed(),
            all_well_formed(settled@),
            scheduler.documents@ == before.documents,
            scheduler.ignore_case == before.ignore_case,
            job_views(kept@) == model::remaining(jobs.take(done), now),
            settled_views(settled@) == model::lapsed(
                jobs.take(done),
                now,
                before.documents,
                before.ignore_case,
            ),
        decreases queue@.len(),
    {
        let ghost upto = jobs.take(done + 1);
        let ghost kept_before = kept@;
        let ghost settled_before = settled@;
        if let Some(job) = queue.pop_front() {
            let mut job = job;
            proof {
                assert(job == waiting[done]);
                assert(upto.drop_last() =~= jobs.take(done));
                assert(upto.last() == job@);
                assert(queue@ =~= waiting.skip(done + 1));
            }
            if job.expire_if_due(now) {
                let outcome = finalize(
                    &mut job.operation,
                    &scheduler.documents,
                    scheduler.ignore_case,
                    None,
                );
                settled.push(job.settle(outcome, OutputEnd::Finished));
                proof {
                    assert(settled_views(settled@) =~= settled_views(settled_before).push(
                        settled@.last()@,
                    ));
                }
            } else {
                kept.push_back(job);
                proof {
                    assert(job_views(kept@) =~= job_views(kept_before).push(job@));
                }
            }
            proof {
                done = done + 1;
            }
        }
    }
    proof {
        assert(done == waiting.len());
        assert(jobs.take(done) =~= jobs);
    }
    scheduler.pending = kept;
    let ghost middle = SchedulerView {
        active: match before.active {
            Some(job) => Some(job.at(now)),
            None => None,
        },
        pending: model::remaining(jobs, now),
        ..before
    };
    assert(scheduler@ =~~= middle);
    let mut ready = false;
    if scheduler.pending.len() > 0 {
        assert(middle.pending[0] == scheduler.pending@[0]@);
        let head = &scheduler.pending[0];
        if head.waiting_for_readiness {
            if let Some(retry_at) = head.retry_at {
                ready = now >= retry_at;
            }
        }
    }
    if ready {
        let ghost kept_jobs = scheduler.pending@;
        if let Some(head) = scheduler.pending.pop_front() {
            let mut head = head;
            head.waiting_for_readiness = false;
            head.retry_at = None;
            scheduler.pending.push_front(head);
            proof {
                assert(job_views(scheduler.pending@) =~= middle.ready_at(now).pending);
                assert forall|i: int| 0 <= i < scheduler.pending@.len() implies (
                #[trigger] scheduler.pending@[i]).well_formed() by {
                    if i > 0 {
                        assert(scheduler.pending@[i] == kept_jobs[i]);
                    }
                }
            }
        }
    }
    proof {
        assert(scheduler@ =~~= before.at(now));
        model::lemma_remaining_total(jobs, now, model::execution_measure());
        model::lemma_remaining_total(jobs, now, model::source_measure());
        if middle.ready_at(now) != middle {
            let head = middle.ready_at(now).pending[0];
            model::lemma_total_update(middle.pending, 0, head, model::execution_measure());
            model::lemma_total_update(middle.pending, 0, head, model::source_measure());
        }
        lemma_no_more(before, scheduler@);
    }
    let should_wake = scheduler.request_wake();
    Elapsed { settled, should_wake }
}

/// A document may no longer be busy: the first job is tried again.
pub fn native_state_may_be_ready(scheduler: &mut MutationScheduler) -> (should_wake: bool)
    requires
        old(scheduler).well_formed(),
    ensures
        final(scheduler).well_formed(),
        should_wake == old(scheduler)@.readied().wakes(),
        final(scheduler)@ == old(scheduler)@.readied().woken(),
{
    let ghost before = scheduler@;
    let ghost waiting = scheduler.pending@;
    if let Some(head) = scheduler.pending.pop_front() {
        let mut head = head;
        head.waiting_for_readiness = false;
        head.retry_at = None;
        head.retry_delay = BUSY_RETRY_INITIAL;
        scheduler.pending.push_front(head);
        proof {
            assert(before.pending[0] == waiting[0]@);
            assert(job_views(scheduler.pending@) =~= before.readied().pending);
            assert forall|i: int| 0 <= i < scheduler.pending@.len() implies (
            #[trigger] scheduler.pending@[i]).well_formed() by {
                if i > 0 {
                    assert(scheduler.pending@[i] == waiting[i]);
                }
            }
            model::lemma_total_update(before.pending, 0, head@, model::execution_measure());
            model::lemma_total_update(before.pending, 0, head@, model::source_measure());
        }
    }
    proof {
        assert(scheduler@ =~~= before.readied());
        lemma_no_more(before, scheduler@);
    }
    scheduler.request_wake()
}

/// Hands out the next step of the active execution.
#[verifier::rlimit(50)]
pub fn take_execution_step(scheduler: &mut MutationScheduler, job_id: u64, now: u64) -> (step:
    NativeExecStep)
    requires
        old(scheduler).well_formed(),
    ensures
        final(scheduler).well_formed(),
        step.well_formed(),
        match old(scheduler)@.running(job_id) {
            Some(_) => {
                let execution = old(scheduler)@.active->0.at(now).operation.execution()->0;
                &&& step@ == execution.resolved().step()
                &&& final(scheduler)@ == old(scheduler)@.with_running(execution.stepped())
            },
            None => step@ == model::no_step() && final(scheduler)@ == old(scheduler)@,
        },
{
    let ghost before = scheduler@;
    if let Some(job) = &mut scheduler.active {
        if job.job_id == job_id {
            let _ = job.expire_if_due(now);
            if let Operation::Execute { execution, .. } = &mut job.operation {
                let step = execution.take_step();
                proof {
                    let given = before.active->0.operation.execution()->0;
                    let execution = before.active->0.at(now).operation.execution()->0;
                    let any = crate::exec::lisp::StepResultView::success();
                    state::law_source_is_kept(given, any, job::timeout_message());
                    state::law_source_is_kept(execution, any, job::timeout_message());
                    assert(scheduler@ =~~= before.with_running(execution.stepped()));
                    lemma_active_changed(before, scheduler@);
                }
                return step;
            }
        }
    }
    assert(scheduler@ =~~= before);
    NativeExecStep::invalid()
}

/// Takes the result of a step of the active execution; says whether one was awaited.
pub fn complete_execution_step(
    scheduler: &mut MutationScheduler,
    job_id: u64,
    result: ExecStepResult,
) -> (accepted: bool)
    requires
        old(scheduler).well_formed(),
    ensures
        final(scheduler).well_formed(),
        match old(scheduler)@.running(job_id) {
            Some(execution) => {
                &&& accepted == execution.phase.awaiting()
                &&& final(scheduler)@ == old(scheduler)@.with_running(
                    execution.completed(model::bounded_step(result@)),
                )
            },
            None => !accepted && final(scheduler)@ == old(scheduler)@,
        },
{
    let ghost before = scheduler@;
    let ghost reported = result@;
    let mut result = result;
    bound_diagnostic(&mut result.detail);
    if let Some(job) = &mut scheduler.active {
        if job.job_id == job_id {
            if let Operation::Execute { execution, .. } = &mut job.operation {
                assert(result@ =~= model::bounded_step(reported));
                let accepted = execution.complete_step(result);
                proof {
                    let given = before.active->0.operation.execution()->0;
                    state::law_source_is_kept(
                        given,
                        model::bounded_step(reported),
                        job::timeout_message(),
                    );
                    assert(scheduler@ =~~= before.with_running(
                        given.completed(model::bounded_step(reported)),
                    ));
                    lemma_active_changed(before, scheduler@);
                }
                return accepted;
            }
        }
    }
    assert(scheduler@ =~~= before);
    false
}

/// The native side gives the active execution up.
pub fn abandon_execution(
    scheduler: &mut MutationScheduler,
    job_id: u64,
    result: ExecStepResult,
) -> (accepted: bool)
    requires
        old(scheduler).well_formed(),
    ensures
        final(scheduler).well_formed(),
        match old(scheduler)@.running(job_id) {
            Some(execution) => {
                &&& accepted
                &&& final(scheduler)@ == old(scheduler)@.with_running(
                    execution.abandoned(model::bounded_step(result@)),
                )
            },
            None => !accepted && final(scheduler)@ == old(scheduler)@,
        },
{
    let ghost before = scheduler@;
    let ghost reported = result@;
    let mut result = result;
    bound_diagnostic(&mut result.detail);
    if let Some(job) = &mut scheduler.active {
        if job.job_id == job_id {
            if let Operation::Execute { execution, .. } = &mut job.operation {
                assert(result@ =~= model::bounded_step(reported));
                let accepted = execution.abandon(result);
                proof {
                    let given = before.active->0.operation.execution()->0;
                    state::law_source_is_kept(
                        given,
                        model::bounded_step(reported),
                        job::timeout_message(),
                    );
                    assert(scheduler@ =~~= before.with_running(
                        given.abandoned(model::bounded_step(reported)),
                    ));
                    lemma_active_changed(before, scheduler@);
                }
                return accepted;
            }
        }
    }
    assert(scheduler@ =~~= before);
    false
}

/// The port that belongs to no execution.
pub open spec fn idle_port() -> PortView {
    PortView {
        lease: None,
        printer: None,
        mode: OutputPortMode::Form,
        completed_values: 0,
        result: WriteResult::Inactive,
    }
}

/// A port that was opened: the bridge is claimed for it, and it answers what the channel
/// answers.
pub open spec fn port_opened(
    execution: ExecView,
    kind: ValueOutputKind,
    mode: OutputPortMode,
    port: PortView,
    after: ExecView,
) -> bool {
    &&& port == (PortView {
        lease: Some(ValueOutputLease { generation: execution.bridge.generation, kind }),
        mode,
        result: execution.output.write_status(),
        ..idle_port()
    })
    &&& after == (ExecView {
        bridge: execution.bridge.claimed(),
        ..execution
    })
}

/// Opens a port for the form that the active execution evaluates on a document.
pub fn begin_println(
    scheduler: &mut MutationScheduler,
    document_token: usize,
    database_token: usize,
) -> (port: NativeOutputPort)
    requires
        old(scheduler).well_formed(),
    ensures
        final(scheduler).well_formed(),
        port.well_formed(),
        ({
            let target = NativeDocumentKey { document_token, database_token };
            match old(scheduler)@.running_on(target) {
                Some(execution) => if execution.phase is AwaitingEvaluateForm
                    && execution.bridge.claimable(ValueOutputKind::Form) {
                    &&& final(scheduler)@ == old(scheduler)@.with_running(
                        final(scheduler)@.active->0.operation.execution()->0,
                    )
                    &&& port_opened(
                        execution,
                        ValueOutputKind::Form,
                        OutputPortMode::Form,
                        port@,
                        final(scheduler)@.active->0.operation.execution()->0,
                    )
                } else {
                    port@ == idle_port() && final(scheduler)@ == old(scheduler)@
                },
                None => port@ == idle_port() && final(scheduler)@ == old(scheduler)@,
            }
        }),
{
    let ghost before = scheduler@;
    let target = NativeDocumentKey { document_token, database_token };
    if let Some(job) = &mut scheduler.active {
        if job.native_target == Some(target) {
            if let Operation::Execute { execution, .. } = &mut job.operation {
                if let Some(lease) = execution.acquire_form_output() {
                    let port = NativeOutputPort::form(lease, execution.io_mut());
                    proof {
                        let after = scheduler@.active->0.operation.execution()->0;
                        assert(scheduler@ =~~= before.with_running(after));
                        lemma_active_changed(before, scheduler@);
                    }
                    return port;
                }
            }
        }
    }
    assert(scheduler@ =~~= before);
    NativeOutputPort::inactive()
}

/// Opens a port for the value that the active execution emits on a document.
pub fn begin_eval_value(
    scheduler: &mut MutationScheduler,
    job_id: u64,
    document_token: usize,
    database_token: usize,
) -> (port: NativeOutputPort)
    requires
        old(scheduler).well_formed(),
    ensures
        final(scheduler).well_formed(),
        port.well_formed(),
        ({
            let target = NativeDocumentKey { document_token, database_token };
            match old(scheduler)@.running_on(target) {
                Some(execution) => if old(scheduler)@.active->0.job_id == job_id
                    && execution.phase is AwaitingEmitEvalValue && execution.bridge.claimable(
                    ValueOutputKind::EvalValue,
                ) {
                    &&& final(scheduler)@ == old(scheduler)@.with_running(
                        final(scheduler)@.active->0.operation.execution()->0,
                    )
                    &&& port_opened(
                        execution,
                        ValueOutputKind::EvalValue,
                        OutputPortMode::EvalValue,
                        port@,
                        final(scheduler)@.active->0.operation.execution()->0,
                    )
                } else {
                    port@ == idle_port() && final(scheduler)@ == old(scheduler)@
                },
                None => port@ == idle_port() && final(scheduler)@ == old(scheduler)@,
            }
        }),
{
    let ghost before = scheduler@;
    let target = NativeDocumentKey { document_token, database_token };
    if let Some(job) = &mut scheduler.active {
        if job.job_id == job_id && job.native_target == Some(target) {
            if let Operation::Execute { execution, .. } = &mut job.operation {
                if let Some(lease) = execution.acquire_eval_value_output() {
                    let port = NativeOutputPort::eval_value(lease, execution.io_mut());
                    proof {
                        let after = scheduler@.active->0.operation.execution()->0;
                        assert(scheduler@ =~~= before.with_running(after));
                        lemma_active_changed(before, scheduler@);
                    }
                    return port;
                }
            }
        }
    }
    assert(scheduler@ =~~= before);
    NativeOutputPort::inactive()
}

/// The job that the native side works on. A port belongs to the job that was active when
/// it was opened.
pub fn active_job(scheduler: &MutationScheduler) -> (job_id: Option<u64>)
    ensures
        job_id == match scheduler@.active {
            Some(job) => Some(job.job_id),
            None => None,
        },
{
    match &scheduler.active {
        Some(job) => Some(job.job_id),
        None => None,
    }
}

/// The output and the bridge of the active execution, for the ports that were opened.
pub fn active_io(scheduler: &mut MutationScheduler) -> (io: Option<&mut ExecIo>)
    requires
        old(scheduler).well_formed(),
    ensures
        match io {
            Some(io) => {
                &&& old(scheduler)@.active is Some
                &&& old(scheduler)@.active->0.operation.execution() is Some
                &&& ({
                    let execution = old(scheduler)@.active->0.operation.execution()->0;
                    &&& io.output.well_formed()
                    &&& io.output@ == execution.output
                    &&& io.bridge == execution.bridge
                    &&& final(scheduler)@ == old(scheduler)@.with_running(
                        ExecView {
                            output: final(io).output@,
                            bridge: final(io).bridge,
                            ..execution
                        },
                    )
                })
                &&& final(io).output.well_formed() ==> final(scheduler).well_formed()
            },
            None => {
                &&& old(scheduler)@.active is None
                    || old(scheduler)@.active->0.operation.execution() is None
                &&& final(scheduler)@ == old(scheduler)@
                &&& final(scheduler).well_formed()
            },
        },
{
    if let Some(job) = &mut scheduler.active {
        if let Operation::Execute { execution, .. } = &mut job.operation {
            return Some(execution.io_mut());
        }
    }
    None
}

/// The state of an execution that waits or runs, wherever it stands.
pub open spec fn admitted_execution(view: SchedulerView, job_id: u64) -> Option<ExecView> {
    if view.active is Some && view.active->0.job_id == job_id {
        view.active->0.operation.execution()
    } else {
        match model::queued_position(view.pending, job_id) {
            Some(position) => view.pending[position].operation.execution(),
            None => None,
        }
    }
}

/// The scheduler with an execution that waits or runs in another state.
pub open spec fn with_admitted(view: SchedulerView, job_id: u64, execution: ExecView) -> SchedulerView {
    if view.active is Some && view.active->0.job_id == job_id {
        view.with_running(execution)
    } else {
        let position = model::queued_position(view.pending, job_id)->0;
        let job = view.pending[position];
        SchedulerView {
            pending: view.pending.update(
                position,
                JobView { operation: job.operation.with_execution(execution), ..job },
            ),
            ..view
        }
    }
}

/// The next piece of output of an execution that waits or runs.
#[verifier::rlimit(50)]
pub fn next_chunk(scheduler: &mut MutationScheduler, job_id: u64) -> (poll: Option<ChunkPoll>)
    requires
        old(scheduler).well_formed(),
    ensures
        final(scheduler).well_formed(),
        match admitted_execution(old(scheduler)@, job_id) {
            Some(execution) => {
                let output = execution.output;
                &&& poll is Some
                &&& match poll->0 {
                    ChunkPoll::Chunk(chunk) => {
                        &&& output.ready.len() > 0
                        &&& chunk@ == output.ready[0]
                        &&& final(scheduler)@ == with_admitted(
                            old(scheduler)@,
                            job_id,
                            ExecView {
                                output: OutputView { ready: output.ready.skip(1), ..output },
                                ..execution
                            },
                        )
                    },
                    ChunkPoll::Pending => {
                        &&& output.ready.len() == 0
                        &&& output.emit_result() is Written
                        &&& final(scheduler)@ == old(scheduler)@
                    },
                    ChunkPoll::Ended => {
                        &&& output.ready.len() == 0
                        &&& !(output.emit_result() is Written)
                        &&& final(scheduler)@ == old(scheduler)@
                    },
                }
            },
            None => poll is None && final(scheduler)@ == old(scheduler)@,
        },
{
    let ghost before = scheduler@;
    let mut is_active = false;
    if let Some(job) = &scheduler.active {
        is_active = job.job_id == job_id;
    }
    if is_active {
        let mut poll: Option<ChunkPoll> = None;
        if let Some(job) = &mut scheduler.active {
            if let Operation::Execute { execution, .. } = &mut job.operation {
                poll = Some(execution.output_sink().next_chunk());
            }
        }
        proof {
            match before.active->0.operation.execution() {
                Some(_) => {
                    let after = scheduler@.active->0.operation.execution()->0;
                    assert(scheduler@ =~~= before.with_running(after));
                },
                None => {
                    assert(scheduler@ =~~= before);
                },
            }
            lemma_active_changed(before, scheduler@);
        }
        return poll;
    }
    let position = match queued_execution(scheduler, job_id) {
        Some(position) => position,
        None => {
            return None;
        },
    };
    let ghost waiting = scheduler.pending@;
    proof {
        model::lemma_queued_position(before.pending, job_id);
        assert(before.pending[position as int] == waiting[position as int]@);
    }
    let mut job = match scheduler.pending.remove(position) {
        Some(job) => job,
        None => {
            return None;
        },
    };
    let mut poll: Option<ChunkPoll> = None;
    if let Operation::Execute { execution, .. } = &mut job.operation {
        poll = Some(execution.output_sink().next_chunk());
    }
    scheduler.pending.insert(position, job);
    proof {
        let after = job@.operation.execution()->0;
        let updated = before.pending.update(position as int, job@);
        assert(job_views(scheduler.pending@) =~= updated);
        assert(scheduler@ =~~= with_admitted(before, job_id, after));
        lemma_queued_update(before.pending, job_id, job@);
        model::lemma_total_update(
            before.pending,
            position as int,
            job@,
            model::execution_measure(),
        );
        model::lemma_total_update(before.pending, position as int, job@, model::source_measure());
        lemma_no_more(before, scheduler@);
        assert forall|i: int| 0 <= i < scheduler.pending@.len() implies (
        #[trigger] scheduler.pending@[i]).well_formed() by {
            if i != position {
                assert(scheduler.pending@[i] == waiting[i]);
            }
        }
    }
    poll
}

/// An execution waits where it waited, whatever its state.
proof fn lemma_queued_update(jobs: Seq<JobView>, job_id: u64, job: JobView)
    requires
        model::queued_position(jobs, job_id) is Some,
        job.job_id == job_id,
        job.operation is Execute,
    ensures
        model::queued_position(
            jobs.update(model::queued_position(jobs, job_id)->0, job),
            job_id,
        ) == model::queued_position(jobs, job_id),
{
    let position = model::queued_position(jobs, job_id)->0;
    let updated = jobs.update(position, job);
    model::lemma_queued_position(jobs, job_id);
    model::lemma_queued_position(updated, job_id);
    assert(updated[position] == job);
    match model::queued_position(updated, job_id) {
        Some(found) => {
            if found < position {
                assert(updated[found] == jobs[found]);
            } else if position < found {
                assert(updated[position].job_id == job_id);
            }
        },
        None => {
            assert(updated[position].job_id == job_id);
        },
    }
}

/// An execution whose reader is gone.
pub open spec fn without_reader(execution: ExecView) -> ExecView {
    ExecView {
        output: OutputView { disconnected: true, ..execution.output.discarded() },
        ..execution
    }
}

fn disconnect_job(job: &mut MutationJob)
    requires
        old(job).well_formed(),
    ensures
        final(job).well_formed(),
        final(job)@ == match old(job)@.operation.execution() {
            Some(execution) => JobView {
                operation: old(job)@.operation.with_execution(without_reader(execution)),
                ..old(job)@
            },
            None => old(job)@,
        },
{
    if let Operation::Execute { execution, .. } = &mut job.operation {
        execution.output_sink().disconnect();
    }
}

/// The reader of an execution that waits or runs is gone.
pub fn disconnect_output(scheduler: &mut MutationScheduler, job_id: u64)
    requires
        old(scheduler).well_formed(),
    ensures
        final(scheduler).well_formed(),
        final(scheduler)@ == match admitted_execution(old(scheduler)@, job_id) {
            Some(execution) => with_admitted(
                old(scheduler)@,
                job_id,
                without_reader(execution),
            ),
            None => old(scheduler)@,
        },
{
    let ghost before = scheduler@;
    let mut is_active = false;
    if let Some(job) = &scheduler.active {
        is_active = job.job_id == job_id;
    }
    if is_active {
        if let Some(job) = &mut scheduler.active {
            disconnect_job(job);
        }
        proof {
            match before.active->0.operation.execution() {
                Some(execution) => {
                    assert(scheduler@ =~= before.with_running(without_reader(execution)));
                },
                None => {
                    assert(scheduler@ =~= before);
                },
            }
            lemma_active_changed(before, scheduler@);
        }
        return ;
    }
    let position = match queued_execution(scheduler, job_id) {
        Some(position) => position,
        None => {
            return ;
        },
    };
    let ghost waiting = scheduler.pending@;
    proof {
        model::lemma_queued_position(before.pending, job_id);
        assert(before.pending[position as int] == waiting[position as int]@);
    }
    let mut job = match scheduler.pending.remove(position) {
        Some(job) => job,
        None => {
            return ;
        },
    };
    disconnect_job(&mut job);
    scheduler.pending.insert(position, job);
    proof {
        let execution = before.pending[position as int].operation.execution()->0;
        assert(job_views(scheduler.pending@) =~= before.pending.update(position as int, job@));
        assert(scheduler@ =~= with_admitted(before, job_id, without_reader(execution)));
        model::lemma_total_update(
            before.pending,
            position as int,
            job@,
            model::execution_measure(),
        );
        model::lemma_total_update(before.pending, position as int, job@, model::source_measure());
        lemma_no_more(before, scheduler@);
        assert forall|i: int| 0 <= i < scheduler.pending@.len() implies (
        #[trigger] scheduler.pending@[i]).well_formed() by {
            if i != position {
                assert(scheduler.pending@[i] == waiting[i]);
            }
        }
    }
}

/// What whoever waits for a document is told.
fn document_outcome(result: Result<OperationOutcome, Error>, otherwise: Error) -> (told: Result<
    Document,
    Error,
>)
    ensures
        match (result, told) {
            (Ok(OperationOutcome::Document(document)), Ok(shown)) => shown@ == document@,
            (Ok(OperationOutcome::Document(_)), Err(_)) => false,
            (Ok(_), Err(error)) => error@ == otherwise@,
            (Ok(_), Ok(_)) => false,
            (Err(error), Err(shown)) => shown@ == error@,
            (Err(_), Ok(_)) => false,
        },
{
    match result {
        Ok(OperationOutcome::Document(document)) => Ok(document),
        Ok(_) => Err(otherwise),
        Err(error) => Err(error),
    }
}

/// What is told to whoever waits for a document, or the error where something else came.
pub open spec fn document_told(
    result: Result<OperationOutcomeView, ErrorView>,
    otherwise: ErrorView,
) -> Result<DocumentView, ErrorView> {
    match result {
        Ok(OperationOutcomeView::Document(document)) => Ok(document),
        Ok(_) => Err(otherwise),
        Err(error) => Err(error),
    }
}

pub open spec fn document_result_view(result: Result<Document, Error>) -> Result<
    DocumentView,
    ErrorView,
> {
    match result {
        Ok(document) => Ok(document@),
        Err(error) => Err(error@),
    }
}

/// What whoever opened a file is told.
pub fn open_outcome(result: Result<OperationOutcome, Error>) -> (told: Result<Document, Error>)
    ensures
        document_result_view(told) == document_told(
            job::result_view(result),
            ErrorView::OpenNotPublished,
        ),
{
    document_outcome(result, Error::OpenNotPublished)
}

/// What whoever saved a document is told.
pub fn save_outcome(result: Result<OperationOutcome, Error>) -> (told: Result<Document, Error>)
    ensures
        document_result_view(told) == document_told(
            job::result_view(result),
            ErrorView::SaveNotPublished,
        ),
{
    document_outcome(result, Error::SaveNotPublished)
}

/// What whoever undid or redid a step is told.
pub fn history_outcome(result: Result<OperationOutcome, Error>) -> (told: Result<Document, Error>)
    ensures
        document_result_view(told) == document_told(
            job::result_view(result),
            ErrorView::DocumentGone,
        ),
{
    document_outcome(result, Error::DocumentGone)
}

/// What whoever closed a document is told.
pub fn close_outcome(result: Result<OperationOutcome, Error>) -> (told: Result<(), Error>)
    ensures
        match (job::result_view(result), told) {
            (Ok(OperationOutcomeView::Closed), Ok(_)) => true,
            (Ok(OperationOutcomeView::Closed), Err(_)) => false,
            (Ok(_), Err(error)) => error@ is CloseNotPublished,
            (Ok(_), Ok(_)) => false,
            (Err(error), Err(shown)) => shown@ == error,
            (Err(_), Ok(_)) => false,
        },
{
    match result {
        Ok(OperationOutcome::Closed) => Ok(()),
        Ok(_) => Err(Error::CloseNotPublished),
        Err(error) => Err(error),
    }
}

/// What whoever waits for an execution is told.
pub fn execution_outcome(result: Result<OperationOutcome, Error>) -> (told: Result<
    ExecOutcome,
    Error,
>)
    ensures
        match (job::result_view(result), told) {
            (Ok(OperationOutcomeView::Execution(outcome)), Ok(shown)) => shown@ == outcome,
            (Ok(OperationOutcomeView::Execution(_)), Err(_)) => false,
            (Ok(_), Err(error)) => error@ is ExecutionNotFinished,
            (Ok(_), Ok(_)) => false,
            (Err(error), Err(shown)) => shown@ == error,
            (Err(_), Ok(_)) => false,
        },
{
    match result {
        Ok(OperationOutcome::Execution(outcome)) => Ok(outcome),
        Ok(_) => Err(Error::ExecutionNotFinished),
        Err(error) => Err(error),
    }
}

} // verus!
