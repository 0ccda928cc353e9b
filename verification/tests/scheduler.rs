use acadctl_plugin::documents::Document;
use acadctl_plugin::exec::outcome::{
    DrawingOutcome, ExecFailure, ExecMode, ExecOutcome, SourceLocation,
};
use acadctl_plugin::exec::source::{FormSpan, ScanError, SourceScan};
use acadctl_plugin::exec::state::Exec;
use acadctl_plugin::exec::value::event::{OutputEvent, ValueEvent};
use acadctl_plugin::exec::value::port::{NativeOutputPort, WriteResult};
use acadctl_plugin::exec::{ExecStepKind, ExecStepResult, ExecStepResultKind};
use acadctl_plugin::execution::output::ChunkPoll;
use acadctl_plugin::native::{
    NativeActionKind, NativeActionResult, NativeActionResultKind, NativeDocumentSnapshot,
    NativeExecutionFinalizationObservation as ExecutionFinalizationObservation,
};
use acadctl_plugin::scheduler;
use acadctl_plugin::scheduler::job::interpret;
use acadctl_plugin::scheduler::{
    classify_execution_finalization, close_outcome, execution_outcome, history_outcome,
    open_outcome, save_outcome, try_reserve_execution, CancelResult, Error, ExecutionReservation,
    HistoryDirection, MutationScheduler, NativeAction, NativeFailure, Operation, OperationOutcome,
    ReservationPool, Settled, Submission, BUSY_RETRY_INITIAL, BUSY_RETRY_MAX,
    EXECUTION_START_TIMEOUT, MAX_ADMITTED_EXECUTIONS, MAX_MUTATION_JOBS,
};
use bytes::Bytes;

/// A small form scanner: atoms, strings, comments and lists.
fn scan(source: &str) -> SourceScan {
    let text = source.strip_prefix('\u{feff}').unwrap_or(source);
    let mut forms: Vec<Result<FormSpan, ScanError>> = Vec::new();
    let mut depth = 0usize;
    let mut start: Option<(usize, usize, usize)> = None;
    let (mut line, mut column) = (1usize, 1usize);
    let (mut in_comment, mut in_text) = (false, false);
    for (offset, ch) in text.char_indices() {
        let delimiter = ch.is_whitespace() || ch == ';' || ch == '(' || ch == ')';
        if in_comment {
            in_comment = ch != '\n';
        } else if in_text {
            in_text = ch != '"';
        } else {
            if depth == 0 && delimiter {
                if let Some((byte_start, line, column)) = start.take() {
                    forms.push(Ok(FormSpan { byte_start, byte_end: offset, line, column }));
                }
            }
            if ch == ';' {
                in_comment = true;
            } else if !ch.is_whitespace() {
                if start.is_none() {
                    start = Some((offset, line, column));
                }
                in_text = ch == '"';
                if ch == '(' {
                    depth += 1;
                } else if ch == ')' {
                    depth -= 1;
                    if depth == 0 {
                        let (byte_start, line, column) = start.take().unwrap();
                        forms.push(Ok(FormSpan { byte_start, byte_end: offset + 1, line, column }));
                    }
                }
            }
        }
        if ch == '\n' {
            line += 1;
            column = 1;
        } else {
            column += 1;
        }
    }
    if depth > 0 || in_text {
        let error = || ScanError { message: "the list is not closed".into(), line, column };
        forms.push(Err(error()));
        return SourceScan { form_count: Err(error()), forms };
    }
    if let Some((byte_start, line, column)) = start {
        forms.push(Ok(FormSpan { byte_start, byte_end: text.len(), line, column }));
    }
    SourceScan { form_count: Ok(forms.len()), forms }
}

/// A scheduler, its clock, and what it has settled.
struct World {
    scheduler: MutationScheduler,
    pool: ReservationPool,
    settled: Vec<Settled>,
    now: u64,
    wakes: usize,
}

impl World {
    fn new(documents: Vec<NativeDocumentSnapshot>) -> World {
        let mut world = World {
            scheduler: MutationScheduler::new(false),
            pool: ReservationPool::new(),
            settled: Vec::new(),
            now: 1_000_000,
            wakes: 0,
        };
        world.publish(documents);
        world
    }

    fn publish(&mut self, documents: Vec<NativeDocumentSnapshot>) {
        scheduler::replace_document_snapshot(&mut self.scheduler, documents);
    }

    fn id(&self) -> String {
        scheduler::list(&self.scheduler)[0].id.clone()
    }

    fn settle(&mut self, mut settled: Settled) {
        if let Some(reservation) = settled.reservation.take() {
            self.pool.release(reservation);
        }
        self.settled.push(settled);
    }

    fn settle_all(&mut self, settled: Vec<Settled>) {
        for settled in settled {
            self.settle(settled);
        }
    }

    /// The job of an operation that has to wait.
    fn queued(&mut self, submission: Submission) -> u64 {
        match submission {
            Submission::Queued { job_id, should_wake } => {
                self.wakes += usize::from(should_wake);
                job_id
            }
            Submission::Done(result) => panic!("answered at once: {result:?}"),
        }
    }

    fn save(&mut self, id: &str) -> u64 {
        let submission = scheduler::save(&mut self.scheduler, id.into());
        self.queued(submission)
    }

    fn refused_save(&mut self, id: &str) -> Result<Document, Error> {
        match scheduler::save(&mut self.scheduler, id.into()) {
            Submission::Done(result) => save_outcome(result),
            Submission::Queued { .. } => panic!("the save waits"),
        }
    }

    fn close(&mut self, id: &str, discard: bool) -> u64 {
        let submission = scheduler::close(&mut self.scheduler, id.into(), discard);
        self.queued(submission)
    }

    fn open(&mut self, path: &str) -> u64 {
        let submission = scheduler::open(&mut self.scheduler, path.into());
        self.queued(submission)
    }

    fn try_execute(
        &mut self,
        id: &str,
        reservation: ExecutionReservation,
        execution: Exec,
    ) -> Result<u64, Error> {
        match scheduler::admit_execution(
            &mut self.scheduler,
            id.into(),
            execution,
            reservation,
            self.now,
        ) {
            Ok(admission) => {
                let (job_id, settled, should_wake) = admission.into_parts();
                self.wakes += usize::from(should_wake);
                if let Some(settled) = settled {
                    self.settle(settled);
                }
                Ok(job_id)
            }
            Err(refused) => {
                self.pool.release(refused.reservation);
                Err(refused.error)
            }
        }
    }

    fn execute(&mut self, id: &str, execution: Exec) -> Result<u64, Error> {
        let reservation = try_reserve_execution(&mut self.pool).ok_or(Error::ExecutionCapacity)?;
        self.try_execute(id, reservation, execution)
    }

    fn take(&mut self) -> NativeAction {
        let taken = scheduler::take_native_action(&mut self.scheduler, self.now);
        if let Some(settled) = taken.settled {
            self.settle(settled);
        }
        taken.action
    }

    fn complete_with(&mut self, job_id: u64, result: NativeActionResult) {
        let settled =
            scheduler::complete_native_action(&mut self.scheduler, job_id, result, self.now);
        self.settle_all(settled);
    }

    fn complete(&mut self, job_id: u64, kind: NativeActionResultKind) {
        self.complete_with(job_id, result(kind));
    }

    fn timers(&mut self) {
        let elapsed = scheduler::process_due_timers(&mut self.scheduler, self.now);
        self.wakes += usize::from(elapsed.should_wake);
        self.settle_all(elapsed.settled);
    }

    fn stop(&mut self) {
        let settled = scheduler::stop(&mut self.scheduler);
        self.settle_all(settled);
    }

    fn wake_failed(&mut self, status: i32) {
        let settled = scheduler::wake_failed(&mut self.scheduler, status);
        self.settle_all(settled);
    }

    fn cancel(&mut self, job_id: u64) -> CancelResult {
        let cancellation = scheduler::cancel_execution(&mut self.scheduler, job_id);
        self.wakes += usize::from(cancellation.should_wake);
        if let Some(settled) = cancellation.settled {
            self.settle(settled);
        }
        cancellation.result
    }

    fn step(&mut self, job_id: u64) -> ExecStepKind {
        scheduler::take_execution_step(&mut self.scheduler, job_id, self.now).kind()
    }

    fn done(&mut self, job_id: u64, result: ExecStepResult) -> bool {
        scheduler::complete_execution_step(&mut self.scheduler, job_id, result)
    }

    fn begin(&mut self, job_id: u64) {
        assert_eq!(self.step(job_id), ExecStepKind::BeginUndoGroup);
        assert!(self.done(job_id, step_success()));
    }

    fn begin_println(&mut self, document_token: usize, database_token: usize) -> NativeOutputPort {
        scheduler::begin_println(&mut self.scheduler, document_token, database_token)
    }

    fn begin_eval_value(&mut self, job_id: u64, document: usize, database: usize) -> NativeOutputPort {
        scheduler::begin_eval_value(&mut self.scheduler, job_id, document, database)
    }

    fn claimed(&mut self, port: &NativeOutputPort) -> bool {
        scheduler::active_io(&mut self.scheduler).is_some_and(|io| port.claimed(io))
    }

    fn write(&mut self, port: &mut NativeOutputPort, event: OutputEvent<'_>) -> WriteResult {
        port.write(scheduler::active_io(&mut self.scheduler).unwrap(), Ok(event))
    }

    fn finish(&mut self, port: NativeOutputPort) -> WriteResult {
        port.finish(scheduler::active_io(&mut self.scheduler).unwrap())
    }

    fn is_settled(&self, job_id: u64) -> bool {
        self.settled.iter().any(|settled| settled.job_id == job_id)
    }

    /// What whoever waits for a job is told.
    fn outcome(&mut self, job_id: u64) -> Result<OperationOutcome, Error> {
        let settled = self
            .settled
            .iter_mut()
            .find(|settled| settled.job_id == job_id)
            .expect("the job is settled");
        std::mem::replace(&mut settled.outcome, Err(Error::Stopped))
    }

    fn executed(&mut self, job_id: u64) -> Result<ExecOutcome, Error> {
        execution_outcome(self.outcome(job_id))
    }

    /// What a reader of the output of a job finds.
    fn poll(&mut self, job_id: u64) -> ChunkPoll {
        match scheduler::next_chunk(&mut self.scheduler, job_id) {
            Some(poll) => poll,
            None => self
                .settled
                .iter_mut()
                .find(|settled| settled.job_id == job_id)
                .expect("the job is settled")
                .output
                .as_mut()
                .expect("the job has output")
                .next_chunk(),
        }
    }

    fn rendered(&mut self, job_id: u64) -> String {
        let mut rendered = String::new();
        loop {
            match self.poll(job_id) {
                ChunkPoll::Chunk(chunk) => rendered.push_str(&chunk),
                ChunkPoll::Ended => return rendered,
                ChunkPoll::Pending => panic!("the output has not ended"),
            }
        }
    }
}

fn execution(mode: ExecMode, name: &str, source: &str) -> Exec {
    Exec::new(mode, name.into(), Bytes::from(source.to_owned()), scan(source)).unwrap()
}

fn form() -> Exec {
    execution(ExecMode::Exec, "batch.lsp", "form")
}

fn result(kind: NativeActionResultKind) -> NativeActionResult {
    NativeActionResult { kind, native_status: 0, native_detail: String::new() }
}

fn step_success() -> ExecStepResult {
    ExecStepResult {
        kind: ExecStepResultKind::Success,
        native_status: 0,
        lisp_errno: 0,
        detail: String::new(),
        bridge_symbols_clear_status: 0,
    }
}

fn step_error(detail: &str) -> ExecStepResult {
    ExecStepResult {
        kind: ExecStepResultKind::NativeError,
        native_status: 42,
        lisp_errno: 0,
        detail: detail.into(),
        bridge_symbols_clear_status: 0,
    }
}

fn document(document_token: usize, database_token: usize, modified: bool) -> NativeDocumentSnapshot {
    NativeDocumentSnapshot {
        document_token,
        database_token,
        name: "/tmp/house.dwg".into(),
        named: true,
        modified,
        read_only: false,
        active: false,
    }
}

#[test]
fn execution_finalization_classification_uses_native_facts_in_rust() {
    let clean = classify_execution_finalization(
        result(NativeActionResultKind::Success),
        ExecutionFinalizationObservation::default(),
    );
    assert_eq!(clean.result.kind, NativeActionResultKind::Success);
    assert!(!clean.quarantine);

    for observation in [
        ExecutionFinalizationObservation {
            undo_group_may_be_open: true,
            ..ExecutionFinalizationObservation::default()
        },
        ExecutionFinalizationObservation {
            bridge_symbols_may_be_retained: true,
            ..ExecutionFinalizationObservation::default()
        },
        ExecutionFinalizationObservation {
            staged_form_may_be_retained: true,
            ..ExecutionFinalizationObservation::default()
        },
        ExecutionFinalizationObservation {
            value_writer_active: true,
            ..ExecutionFinalizationObservation::default()
        },
        ExecutionFinalizationObservation {
            terminal_cleanup_failed: true,
            ..ExecutionFinalizationObservation::default()
        },
    ] {
        let retained = classify_execution_finalization(
            result(NativeActionResultKind::ExecutionBridgeFailed),
            observation,
        );
        assert_eq!(
            retained.result.kind,
            NativeActionResultKind::ExecutionBridgeFinalizationFailed
        );
        assert!(retained.quarantine);
    }

    let restore = classify_execution_finalization(
        result(NativeActionResultKind::DocumentContextRestoreFailed),
        ExecutionFinalizationObservation {
            undo_group_may_be_open: true,
            ..ExecutionFinalizationObservation::default()
        },
    );
    assert_eq!(
        restore.result.kind,
        NativeActionResultKind::DocumentContextRestoreFailed
    );
    assert!(restore.quarantine);

    let retained_symbols = classify_execution_finalization(
        result(NativeActionResultKind::ExecutionBridgeSymbolsClearFailed),
        ExecutionFinalizationObservation {
            bridge_symbols_may_be_retained: true,
            ..ExecutionFinalizationObservation::default()
        },
    );
    assert_eq!(
        retained_symbols.result.kind,
        NativeActionResultKind::ExecutionBridgeSymbolsClearFailed
    );
    assert!(retained_symbols.quarantine);

    let symbols_and_undo = classify_execution_finalization(
        result(NativeActionResultKind::ExecutionBridgeSymbolsClearFailed),
        ExecutionFinalizationObservation {
            undo_group_may_be_open: true,
            bridge_symbols_may_be_retained: true,
            ..ExecutionFinalizationObservation::default()
        },
    );
    assert_eq!(
        symbols_and_undo.result.kind,
        NativeActionResultKind::ExecutionBridgeFinalizationFailed
    );
    assert!(symbols_and_undo.quarantine);
}

#[test]
fn scheduler_preserves_native_guard_outcomes_as_types() {
    assert_eq!(
        interpret(
            result(NativeActionResultKind::DocumentGone),
            &Operation::Save { id: "doc".into() },
        ),
        Err(Error::DocumentGone)
    );
    assert_eq!(
        interpret(
            result(NativeActionResultKind::DocumentGenerationChanged),
            &Operation::Save { id: "doc".into() },
        ),
        Err(Error::DocumentGenerationChanged)
    );
    assert_eq!(
        interpret(
            result(NativeActionResultKind::ReadOnly),
            &Operation::Save { id: "doc".into() },
        ),
        Err(Error::ReadOnly("doc".into()))
    );
}

#[test]
fn dropped_waiter_does_not_cancel_or_release_an_operation() {
    let mut world = World::new(vec![document(1, 101, true)]);
    let id = world.id();
    let first = world.save(&id);
    let save_action = world.take();
    assert_eq!(save_action.kind, NativeActionKind::Save);
    assert_eq!(save_action.job_id, first);

    let second = world.close(&id, true);
    assert_eq!(world.take().kind, NativeActionKind::Idle);

    world.publish(vec![document(1, 101, false)]);
    world.complete(save_action.job_id, NativeActionResultKind::Success);
    assert!(scheduler::try_claim_native_action_wake(&mut world.scheduler));

    let close_action = world.take();
    assert_eq!(close_action.kind, NativeActionKind::Close);
    world.publish(Vec::new());
    world.complete(close_action.job_id, NativeActionResultKind::Success);
    assert!(close_outcome(world.outcome(second)).is_ok());
}

#[test]
fn drawing_history_actions_share_the_fifo_and_exact_generation() {
    let mut world = World::new(vec![document(1, 101, false)]);
    let id = world.id();

    let submission = scheduler::undo(&mut world.scheduler, id.clone());
    let undo = world.queued(submission);
    let undo_action = world.take();
    assert_eq!(undo_action.kind, NativeActionKind::Undo);
    assert_eq!(undo_action.document_token, 1);
    assert_eq!(undo_action.database_token, 101);

    let submission = scheduler::redo(&mut world.scheduler, id);
    let redo = world.queued(submission);
    assert_eq!(world.take().kind, NativeActionKind::Idle);

    world.publish(vec![document(1, 101, true)]);
    world.complete(undo_action.job_id, NativeActionResultKind::Success);
    assert!(history_outcome(world.outcome(undo)).unwrap().modified);

    let redo_action = world.take();
    assert_eq!(redo_action.kind, NativeActionKind::Redo);
    assert_eq!(redo_action.document_token, 1);
    assert_eq!(redo_action.database_token, 101);
    world.publish(vec![document(1, 101, false)]);
    world.complete(redo_action.job_id, NativeActionResultKind::Success);
    assert!(!history_outcome(world.outcome(redo)).unwrap().modified);
}

#[test]
fn drawing_history_fails_closed_on_missing_or_replaced_documents() {
    let mut world = World::new(vec![document(1, 101, false)]);
    let id = world.id();

    let Submission::Done(refused) = scheduler::undo(&mut world.scheduler, "absent".into()) else {
        panic!("a document that is not open needs no native work");
    };
    assert_eq!(
        history_outcome(refused),
        Err(Error::DocumentNotFound("absent".into()))
    );

    let submission = scheduler::redo(&mut world.scheduler, id);
    let redo = world.queued(submission);
    let action = world.take();
    assert_eq!(action.kind, NativeActionKind::Redo);
    world.publish(vec![document(1, 201, false)]);
    world.complete(action.job_id, NativeActionResultKind::Success);
    assert_eq!(
        history_outcome(world.outcome(redo)),
        Err(Error::DocumentGenerationChanged)
    );
}

#[test]
fn wake_failure_completes_every_job_waiting_on_that_wake() {
    let mut world = World::new(Vec::new());
    let jobs = [
        world.open("/tmp/first.dwg"),
        world.open("/tmp/second.dwg"),
        world.open("/tmp/third.dwg"),
    ];
    assert_eq!(world.wakes, 1);

    world.wake_failed(42);

    for job in jobs {
        assert_eq!(open_outcome(world.outcome(job)), Err(Error::ScheduleFailed(42)));
    }

    assert_eq!(world.take().kind, NativeActionKind::Idle);
}

#[test]
fn shutdown_rejects_pending_work_but_preserves_the_active_operation() {
    let mut world = World::new(vec![document(1, 101, true)]);
    let id = world.id();
    let active = world.save(&id);
    let save_action = world.take();
    assert_eq!(save_action.kind, NativeActionKind::Save);

    let pending = world.close(&id, true);
    world.stop();

    assert_eq!(close_outcome(world.outcome(pending)), Err(Error::PluginStopping));
    assert_eq!(world.take().kind, NativeActionKind::Idle);

    world.publish(vec![document(1, 101, false)]);
    world.complete(save_action.job_id, NativeActionResultKind::Success);
    assert!(save_outcome(world.outcome(active)).is_ok());
}

#[test]
fn keeps_one_mutation_job_active_across_a_batch() {
    let mut world = World::new(vec![document(1, 101, false)]);
    let id = world.id();
    let job = world
        .execute(&id, execution(ExecMode::Exec, "batch.lsp", "first\nsecond"))
        .unwrap();

    let action = world.take();
    assert_eq!(action.kind, NativeActionKind::QueueExecutionDriver);
    assert_eq!(action.document_token, 1);
    assert_eq!(action.database_token, 101);

    world.begin(job);
    let first = scheduler::take_execution_step(&mut world.scheduler, job, world.now);
    assert_eq!(first.source(), "first");
    assert!(world.done(job, step_success()));
    let second = scheduler::take_execution_step(&mut world.scheduler, job, world.now);
    assert_eq!(second.source(), "second");
    assert!(world.done(job, step_success()));
    assert_eq!(world.step(job), ExecStepKind::CommitUndoGroup);
    assert!(world.done(job, step_success()));
    assert_eq!(world.step(job), ExecStepKind::Done);

    world.complete(job, NativeActionResultKind::Success);
    assert_eq!(world.executed(job).unwrap(), ExecOutcome::Success);
}

#[test]
fn routes_println_only_to_the_exact_active_form() {
    let mut world = World::new(vec![document(1, 101, false)]);
    let id = world.id();
    let job = world.execute(&id, form()).unwrap();

    assert_eq!(world.take().job_id, job);
    let early = world.begin_println(1, 101);
    assert!(!world.claimed(&early));
    assert_eq!(scheduler::active_job(&world.scheduler), Some(job));
    world.begin(job);
    assert_eq!(world.step(job), ExecStepKind::EvaluateForm);
    let other = world.begin_println(2, 101);
    assert!(!world.claimed(&other));
    let other = world.begin_println(1, 202);
    assert!(!world.claimed(&other));

    let mut port = world.begin_println(1, 101);
    assert!(world.claimed(&port));
    assert_eq!(
        world.write(&mut port, OutputEvent::Println("created: 3")),
        WriteResult::Continue
    );
    assert_eq!(world.finish(port), WriteResult::Continue);

    assert!(world.done(job, step_success()));
    let late = world.begin_println(1, 101);
    assert!(!world.claimed(&late));
    assert_eq!(world.step(job), ExecStepKind::CommitUndoGroup);
    assert!(world.done(job, step_success()));
    assert_eq!(world.step(job), ExecStepKind::Done);
    world.complete(job, NativeActionResultKind::Success);

    assert_eq!(world.executed(job).unwrap(), ExecOutcome::Success);
    assert_eq!(world.rendered(job), "created: 3\n");
}

#[test]
fn routes_the_eval_value_only_after_commit_and_only_once() {
    let mut world = World::new(vec![document(1, 101, false)]);
    let id = world.id();
    let job = world
        .execute(&id, execution(ExecMode::Eval, "inspect.lsp", "form"))
        .unwrap();

    assert_eq!(world.take().job_id, job);
    world.begin(job);
    let form = scheduler::take_execution_step(&mut world.scheduler, job, world.now);
    assert_eq!(form.kind(), ExecStepKind::EvaluateForm);
    assert!(form.retain_value());
    assert!(world.done(job, step_success()));
    assert_eq!(world.step(job), ExecStepKind::CommitUndoGroup);
    assert!(world.done(job, step_success()));
    assert_eq!(world.step(job), ExecStepKind::EmitEvalValue);

    let port = world.begin_println(1, 101);
    assert!(!world.claimed(&port));
    for (other_job, document, database) in [(job + 1, 1, 101), (job, 2, 101), (job, 1, 202)] {
        let port = world.begin_eval_value(other_job, document, database);
        assert!(!world.claimed(&port));
    }
    let mut port = world.begin_eval_value(job, 1, 101);
    assert!(world.claimed(&port));
    let second = world.begin_eval_value(job, 1, 101);
    assert!(!world.claimed(&second));
    assert_eq!(world.write(&mut port, OutputEvent::BeginValue), WriteResult::Continue);
    assert_eq!(
        world.write(&mut port, OutputEvent::Value(ValueEvent::Integer(12))),
        WriteResult::Continue
    );
    assert_eq!(world.write(&mut port, OutputEvent::EndValue), WriteResult::Continue);
    assert_eq!(world.finish(port), WriteResult::Continue);
    let third = world.begin_eval_value(job, 1, 101);
    assert!(!world.claimed(&third));

    assert!(world.done(job, step_success()));
    assert_eq!(world.step(job), ExecStepKind::Done);
    world.complete(job, NativeActionResultKind::Success);

    assert_eq!(world.executed(job).unwrap(), ExecOutcome::Success);
    assert_eq!(world.rendered(job), "12\n");
}

#[test]
fn rolls_back_a_malformed_active_value_stream() {
    let mut world = World::new(vec![document(1, 101, false)]);
    let id = world.id();
    let job = world.execute(&id, form()).unwrap();

    assert_eq!(world.take().job_id, job);
    world.begin(job);
    assert_eq!(world.step(job), ExecStepKind::EvaluateForm);

    let mut port = world.begin_println(1, 101);
    assert_eq!(
        world.write(&mut port, OutputEvent::Value(ValueEvent::EndList)),
        WriteResult::InvalidSequence
    );
    assert_eq!(world.finish(port), WriteResult::InvalidSequence);
    assert!(world.done(job, step_success()));
    assert_eq!(world.step(job), ExecStepKind::RollbackUndoGroup);
    assert!(world.done(job, step_success()));
    assert_eq!(world.step(job), ExecStepKind::Done);
    world.complete(job, NativeActionResultKind::Success);

    assert_eq!(
        world.executed(job).unwrap(),
        ExecOutcome::Failure(ExecFailure {
            message: "the AutoLISP output bridge emitted an invalid value sequence".into(),
            form_index: Some(1),
            location: Some(SourceLocation {
                source_name: "batch.lsp".into(),
                line: 1,
                column: 1,
            }),
            drawing_outcome: DrawingOutcome::RolledBack,
            drawing_error: None,
        })
    );
}

#[test]
fn unfinished_writer_fails_its_own_form_checkpoint() {
    let mut world = World::new(vec![document(1, 101, false)]);
    let id = world.id();
    let job = world.execute(&id, form()).unwrap();

    assert_eq!(world.take().job_id, job);
    world.begin(job);
    assert_eq!(world.step(job), ExecStepKind::EvaluateForm);

    let mut port = world.begin_println(1, 101);
    assert!(world.claimed(&port));
    assert!(world.done(job, step_success()));
    assert!(!world.claimed(&port));
    assert_eq!(
        world.write(&mut port, OutputEvent::Value(ValueEvent::Integer(9))),
        WriteResult::Inactive
    );
    assert_eq!(world.step(job), ExecStepKind::RollbackUndoGroup);
    assert!(world.done(job, step_success()));
    assert_eq!(world.step(job), ExecStepKind::Done);
    world.complete(job, NativeActionResultKind::Success);

    let Ok(ExecOutcome::Failure(failure)) = world.executed(job) else {
        panic!("expected the unfinished writer to fail execution");
    };
    assert_eq!(
        failure.message,
        "the AutoLISP output bridge abandoned an unfinished value"
    );
    assert_eq!(failure.form_index, Some(1));
    assert_eq!(failure.drawing_outcome, DrawingOutcome::RolledBack);
}

#[test]
fn queued_cancellation_removes_only_that_execution() {
    let mut world = World::new(vec![document(1, 101, true)]);
    let id = world.id();
    let active = world.save(&id);
    let save_action = world.take();
    assert_eq!(save_action.kind, NativeActionKind::Save);

    let job = world.execute(&id, form()).unwrap();
    assert_eq!(world.cancel(job), CancelResult::Accepted);
    assert_eq!(world.executed(job).unwrap(), ExecOutcome::Cancelled);
    assert_eq!(world.poll(job), ChunkPoll::Ended);

    world.publish(vec![document(1, 101, false)]);
    world.complete(save_action.job_id, NativeActionResultKind::Success);
    assert!(save_outcome(world.outcome(active)).is_ok());
    assert!(!scheduler::try_claim_native_action_wake(&mut world.scheduler));
}

#[test]
fn dropping_a_queued_execution_waiter_keeps_the_job_and_output_alive() {
    let mut world = World::new(vec![document(1, 101, true)]);
    let id = world.id();
    let active = world.save(&id);
    let save_action = world.take();
    assert_eq!(save_action.kind, NativeActionKind::Save);

    let job = world.execute(&id, form()).unwrap();
    assert_eq!(world.poll(job), ChunkPoll::Pending);
    assert_eq!(world.cancel(job), CancelResult::Accepted);
    assert_eq!(world.poll(job), ChunkPoll::Ended);

    world.publish(vec![document(1, 101, false)]);
    world.complete(save_action.job_id, NativeActionResultKind::Success);
    assert!(save_outcome(world.outcome(active)).is_ok());
    assert!(!scheduler::try_claim_native_action_wake(&mut world.scheduler));
}

#[test]
fn wake_failure_stops_a_pending_execution_output_stream() {
    let mut world = World::new(vec![document(1, 101, false)]);
    let id = world.id();
    let job = world.execute(&id, form()).unwrap();

    world.wake_failed(42);

    assert_eq!(world.executed(job), Err(Error::ScheduleFailed(42)));
    assert_eq!(world.poll(job), ChunkPoll::Ended);
    assert_eq!(world.take().kind, NativeActionKind::Idle);
}

#[test]
fn active_cancellation_rolls_back_after_the_current_form() {
    let mut world = World::new(vec![document(1, 101, false)]);
    let id = world.id();
    let job = world.execute(&id, form()).unwrap();

    assert_eq!(world.take().kind, NativeActionKind::QueueExecutionDriver);
    world.begin(job);
    assert_eq!(world.step(job), ExecStepKind::EvaluateForm);

    assert_eq!(world.cancel(job), CancelResult::Accepted);
    assert_eq!(world.cancel(job), CancelResult::Accepted);
    assert_eq!(world.poll(job), ChunkPoll::Ended);
    assert!(world.done(job, step_success()));
    assert_eq!(world.step(job), ExecStepKind::RollbackUndoGroup);
    assert!(world.done(job, step_success()));
    assert_eq!(world.step(job), ExecStepKind::Done);

    world.complete(job, NativeActionResultKind::Success);
    assert_eq!(world.executed(job).unwrap(), ExecOutcome::Cancelled);
}

#[test]
fn active_cancellation_before_the_first_form_closes_the_empty_undo_group() {
    let mut world = World::new(vec![document(1, 101, false)]);
    let id = world.id();
    let job = world.execute(&id, form()).unwrap();

    assert_eq!(world.take().job_id, job);
    world.begin(job);
    assert_eq!(world.cancel(job), CancelResult::Accepted);
    assert_eq!(world.poll(job), ChunkPoll::Ended);
    assert_eq!(world.step(job), ExecStepKind::CloseEmptyUndoGroup);
    assert!(world.done(job, step_success()));
    assert_eq!(world.step(job), ExecStepKind::Done);

    world.complete(job, NativeActionResultKind::Success);
    assert_eq!(world.executed(job).unwrap(), ExecOutcome::Cancelled);
}

#[test]
fn cancellation_after_commit_handoff_does_not_cancel_output() {
    let mut world = World::new(vec![document(1, 101, false)]);
    let id = world.id();
    let job = world.execute(&id, form()).unwrap();

    assert_eq!(world.take().job_id, job);
    world.begin(job);
    assert_eq!(world.step(job), ExecStepKind::EvaluateForm);
    assert!(world.done(job, step_success()));
    assert_eq!(world.step(job), ExecStepKind::CommitUndoGroup);

    assert_eq!(world.cancel(job), CancelResult::TooLate);
    assert!(world.done(job, step_success()));
    assert_eq!(world.step(job), ExecStepKind::Done);
    world.complete(job, NativeActionResultKind::Success);

    assert_eq!(world.executed(job).unwrap(), ExecOutcome::Success);
    assert_eq!(world.poll(job), ChunkPoll::Ended);
}

#[test]
fn shutdown_wakes_output_and_cancels_an_active_execution_safely() {
    let mut world = World::new(vec![document(1, 101, false)]);
    let id = world.id();
    let job = world.execute(&id, form()).unwrap();

    assert_eq!(world.take().job_id, job);
    world.begin(job);
    assert_eq!(world.step(job), ExecStepKind::EvaluateForm);

    world.stop();
    assert_eq!(world.poll(job), ChunkPoll::Ended);
    assert!(world.done(job, step_success()));
    assert_eq!(world.step(job), ExecStepKind::RollbackUndoGroup);
    assert!(world.done(job, step_success()));
    assert_eq!(world.step(job), ExecStepKind::Done);
    world.complete(job, NativeActionResultKind::Success);
    assert_eq!(world.executed(job).unwrap(), ExecOutcome::Cancelled);
}

#[test]
fn dropped_execution_waiter_does_not_release_the_active_mutation_job() {
    let mut world = World::new(vec![document(1, 101, false)]);
    let id = world.id();
    let job = world.execute(&id, form()).unwrap();

    assert_eq!(world.take().kind, NativeActionKind::QueueExecutionDriver);
    world.begin(job);
    let step = scheduler::take_execution_step(&mut world.scheduler, job, world.now);
    assert_eq!(step.source(), "form");

    assert_eq!(world.poll(job), ChunkPoll::Pending);
    let later = world.close(&id, true);
    assert_eq!(world.take().kind, NativeActionKind::Idle);

    assert!(world.done(job, step_success()));
    assert_eq!(world.step(job), ExecStepKind::CommitUndoGroup);
    assert!(world.done(job, step_success()));
    assert_eq!(world.step(job), ExecStepKind::Done);
    world.complete(job, NativeActionResultKind::Success);
    assert_eq!(world.poll(job), ChunkPoll::Ended);

    assert!(scheduler::try_claim_native_action_wake(&mut world.scheduler));
    let close_action = world.take();
    assert_eq!(close_action.kind, NativeActionKind::Close);
    world.publish(Vec::new());
    world.complete(close_action.job_id, NativeActionResultKind::Success);
    assert!(close_outcome(world.outcome(later)).is_ok());
}

/// Runs a batch of one form up to its last step.
fn run_to_the_end(world: &mut World, job: u64) {
    assert_eq!(world.take().kind, NativeActionKind::QueueExecutionDriver);
    world.begin(job);
    assert_eq!(world.step(job), ExecStepKind::EvaluateForm);
    assert!(world.done(job, step_success()));
    assert_eq!(world.step(job), ExecStepKind::CommitUndoGroup);
    assert!(world.done(job, step_success()));
    assert_eq!(world.step(job), ExecStepKind::Done);
}

#[test]
fn document_context_restore_failure_amends_a_terminal_execution_outcome() {
    let mut world = World::new(vec![document(1, 101, false)]);
    let id = world.id();
    let job = world
        .execute(&id, execution(ExecMode::Exec, "batch.lsp", "ok"))
        .unwrap();
    run_to_the_end(&mut world, job);

    let blocked = world.save(&id);
    world.complete_with(
        job,
        NativeActionResult {
            kind: NativeActionResultKind::DocumentContextRestoreFailed,
            native_status: 42,
            native_detail: "unlock failed".into(),
        },
    );

    assert_eq!(
        world.executed(job).unwrap(),
        ExecOutcome::Failure(ExecFailure {
            message: "unlock failed".into(),
            form_index: None,
            location: None,
            drawing_outcome: DrawingOutcome::Unknown,
            drawing_error: None,
        })
    );
    assert_eq!(
        save_outcome(world.outcome(blocked)),
        Err(Error::NativeMutationStateUnknown)
    );
    assert_eq!(world.refused_save(&id), Err(Error::NativeMutationStateUnknown));
    assert_eq!(world.take().kind, NativeActionKind::Idle);
}

#[test]
fn start_does_not_clear_native_state_quarantine() {
    let mut world = World::new(vec![document(1, 101, false)]);
    let id = world.id();
    let job = world.execute(&id, form()).unwrap();
    run_to_the_end(&mut world, job);
    world.complete(job, NativeActionResultKind::ExecutionBridgeFinalizationFailed);
    world.stop();
    assert!(world.scheduler.stopping());
    assert!(world.scheduler.quarantined());

    scheduler::start(&mut world.scheduler);

    assert!(!world.scheduler.stopping());
    assert!(world.scheduler.quarantined());
    assert_eq!(world.refused_save(&id), Err(Error::NativeMutationStateUnknown));
}

#[test]
fn retained_execution_state_quarantines_without_erasing_commit_evidence() {
    let mut world = World::new(vec![document(1, 101, false)]);
    let id = world.id();
    let job = world
        .execute(&id, execution(ExecMode::Eval, "inspect.lsp", "form"))
        .unwrap();

    assert_eq!(world.take().kind, NativeActionKind::QueueExecutionDriver);
    world.begin(job);
    assert_eq!(world.step(job), ExecStepKind::EvaluateForm);
    assert!(world.done(job, step_success()));
    assert_eq!(world.step(job), ExecStepKind::CommitUndoGroup);
    assert!(world.done(job, step_success()));
    assert_eq!(world.step(job), ExecStepKind::EmitEvalValue);

    let mut port = world.begin_eval_value(job, 1, 101);
    assert_eq!(world.write(&mut port, OutputEvent::BeginValue), WriteResult::Continue);
    assert_eq!(
        world.write(&mut port, OutputEvent::Value(ValueEvent::Integer(12))),
        WriteResult::Continue
    );
    assert_eq!(world.write(&mut port, OutputEvent::EndValue), WriteResult::Continue);
    assert_eq!(world.finish(port), WriteResult::Continue);
    assert!(world.done(job, step_error("could not clear the retained AutoLISP value")));
    assert_eq!(world.step(job), ExecStepKind::Done);

    let blocked = world.save(&id);
    let settled = scheduler::complete_execution_native_action(
        &mut world.scheduler,
        job,
        NativeActionResult {
            kind: NativeActionResultKind::ExecutionBridgeSymbolsClearFailed,
            native_status: 42,
            native_detail: "reserved execution bridge state remains".into(),
        },
        ExecutionFinalizationObservation {
            bridge_symbols_may_be_retained: true,
            terminal_cleanup_failed: true,
            ..ExecutionFinalizationObservation::default()
        },
        world.now,
    );
    world.settle_all(settled);

    assert_eq!(
        world.executed(job).unwrap(),
        ExecOutcome::Failure(ExecFailure {
            message: "could not clear the retained AutoLISP value".into(),
            form_index: Some(1),
            location: Some(SourceLocation {
                source_name: "inspect.lsp".into(),
                line: 1,
                column: 1,
            }),
            drawing_outcome: DrawingOutcome::Committed,
            drawing_error: None,
        })
    );
    assert_eq!(
        save_outcome(world.outcome(blocked)),
        Err(Error::NativeMutationStateUnknown)
    );
    assert_eq!(world.refused_save(&id), Err(Error::NativeMutationStateUnknown));
    assert_eq!(world.take().kind, NativeActionKind::Idle);
}

#[test]
fn queued_execution_expires_without_starting_a_form() {
    let mut world = World::new(vec![document(1, 101, true)]);
    let id = world.id();
    let saving = world.save(&id);
    let save_action = world.take();
    assert_eq!(save_action.kind, NativeActionKind::Save);

    let job = world.execute(&id, form()).unwrap();
    assert_eq!(
        scheduler::next_timer_deadline(&world.scheduler),
        Some(world.now + EXECUTION_START_TIMEOUT)
    );
    world.now += EXECUTION_START_TIMEOUT;
    world.timers();

    assert_eq!(world.poll(job), ChunkPoll::Ended);
    assert_eq!(
        world.executed(job).unwrap(),
        ExecOutcome::Failure(ExecFailure {
            message: "execution did not start within 5 seconds".into(),
            form_index: None,
            location: None,
            drawing_outcome: DrawingOutcome::NotStarted,
            drawing_error: None,
        })
    );
    assert_eq!(world.take().kind, NativeActionKind::Idle);
    assert_eq!(scheduler::next_timer_deadline(&world.scheduler), None);

    world.publish(vec![document(1, 101, false)]);
    world.complete(save_action.job_id, NativeActionResultKind::Success);
    assert!(save_outcome(world.outcome(saving)).is_ok());
}

#[test]
fn busy_execution_waits_for_a_readiness_retry_without_spinning() {
    let mut world = World::new(vec![document(1, 101, false)]);
    let id = world.id();
    let job = world.execute(&id, form()).unwrap();

    let first = world.take();
    assert_eq!(first.kind, NativeActionKind::QueueExecutionDriver);
    world.complete(first.job_id, NativeActionResultKind::NotQuiescent);
    assert_eq!(world.take().kind, NativeActionKind::Idle);
    assert_eq!(
        scheduler::next_timer_deadline(&world.scheduler),
        Some(world.now + BUSY_RETRY_INITIAL)
    );

    world.now += BUSY_RETRY_MAX;
    world.timers();
    let retried = world.take();
    assert_eq!(retried.kind, NativeActionKind::QueueExecutionDriver);
    assert_eq!(retried.job_id, job);
    assert_eq!(world.cancel(job), CancelResult::Accepted);
    assert_eq!(world.step(job), ExecStepKind::Done);
    world.complete(job, NativeActionResultKind::Success);
    assert_eq!(world.executed(job).unwrap(), ExecOutcome::Cancelled);
}

#[test]
fn the_pause_before_a_busy_document_is_tried_again_doubles_up_to_its_limit() {
    let mut world = World::new(vec![document(1, 101, false)]);
    let id = world.id();
    let job = world.execute(&id, form()).unwrap();
    for pause in [50, 100, 200, 400, 500, 500] {
        assert_eq!(world.take().job_id, job);
        world.complete(job, NativeActionResultKind::NotQuiescent);
        assert_eq!(
            scheduler::next_timer_deadline(&world.scheduler),
            Some(world.now + pause)
        );
        world.now += pause;
        world.timers();
    }
    assert_eq!(world.take().job_id, job);
    world.complete(job, NativeActionResultKind::NotQuiescent);
    assert!(scheduler::native_state_may_be_ready(&mut world.scheduler));
    assert_eq!(world.take().job_id, job);
    world.complete(job, NativeActionResultKind::NotQuiescent);
    assert_eq!(
        scheduler::next_timer_deadline(&world.scheduler),
        Some(world.now + BUSY_RETRY_INITIAL)
    );
}

#[test]
fn deadline_wins_while_the_busy_probe_is_in_flight() {
    let mut world = World::new(vec![document(1, 101, false)]);
    let id = world.id();
    let job = world.execute(&id, form()).unwrap();
    assert_eq!(world.take().kind, NativeActionKind::QueueExecutionDriver);

    world.now += EXECUTION_START_TIMEOUT;
    world.timers();
    world.complete(job, NativeActionResultKind::NotQuiescent);

    assert!(matches!(
        world.executed(job).unwrap(),
        ExecOutcome::Failure(ExecFailure {
            drawing_outcome: DrawingOutcome::NotStarted,
            ..
        })
    ));
    assert_eq!(world.take().kind, NativeActionKind::Idle);
}

#[test]
fn deadline_winner_survives_a_native_preflight_failure() {
    let mut world = World::new(vec![document(1, 101, false)]);
    let id = world.id();
    let job = world.execute(&id, form()).unwrap();
    assert_eq!(world.take().kind, NativeActionKind::QueueExecutionDriver);

    world.now += EXECUTION_START_TIMEOUT;
    world.timers();
    world.complete(job, NativeActionResultKind::UndoDisabled);

    assert_eq!(
        world.executed(job).unwrap(),
        ExecOutcome::Failure(ExecFailure {
            message: "execution did not start within 5 seconds".into(),
            form_index: None,
            location: None,
            drawing_outcome: DrawingOutcome::NotStarted,
            drawing_error: None,
        })
    );
}

#[test]
fn deadline_winner_survives_a_failing_begin_step() {
    let mut world = World::new(vec![document(1, 101, false)]);
    let id = world.id();
    let job = world.execute(&id, form()).unwrap();
    assert_eq!(world.take().kind, NativeActionKind::QueueExecutionDriver);
    assert_eq!(world.step(job), ExecStepKind::BeginUndoGroup);

    world.now += EXECUTION_START_TIMEOUT;
    world.timers();
    assert!(world.done(job, step_error("undo begin failed")));
    assert_eq!(world.step(job), ExecStepKind::Done);
    world.complete(job, NativeActionResultKind::Success);

    let ExecOutcome::Failure(failure) = world.executed(job).unwrap() else {
        panic!("the execution start deadline must remain the terminal cause");
    };
    assert!(
        failure
            .message
            .starts_with("execution did not start within 5 seconds")
    );
    assert!(failure.message.contains("undo begin failed"));
    assert_eq!(failure.drawing_outcome, DrawingOutcome::NotStarted);
}

#[test]
fn admitted_execution_survives_dropped_rpc_observers() {
    let mut world = World::new(vec![document(1, 101, false)]);
    let id = world.id();
    let job = world.execute(&id, form()).unwrap();
    scheduler::disconnect_output(&mut world.scheduler, job);

    let action = world.take();
    assert_eq!(action.kind, NativeActionKind::QueueExecutionDriver);
    assert_eq!(action.job_id, job);
    assert_eq!(world.cancel(job), CancelResult::Accepted);
    assert_eq!(world.step(job), ExecStepKind::Done);
    world.complete(job, NativeActionResultKind::Success);
    assert_eq!(world.take().kind, NativeActionKind::Idle);
    assert!(world.is_settled(job));
}

#[test]
fn execution_count_capacity_is_released_by_queued_cancellation() {
    let mut world = World::new(vec![document(1, 101, false)]);
    let id = world.id();
    let mut jobs = Vec::new();

    for _ in 0..MAX_ADMITTED_EXECUTIONS {
        jobs.push(world.execute(&id, form()).unwrap());
    }

    assert!(matches!(world.execute(&id, form()), Err(Error::ExecutionCapacity)));

    for job in jobs {
        assert_eq!(world.cancel(job), CancelResult::Accepted);
        assert_eq!(world.executed(job).unwrap(), ExecOutcome::Cancelled);
    }

    let replacement = world.execute(&id, form()).unwrap();
    assert_eq!(world.cancel(replacement), CancelResult::Accepted);
    assert_eq!(world.executed(replacement).unwrap(), ExecOutcome::Cancelled);
}

#[test]
fn detached_execution_retains_its_shared_admission_reservation() {
    let mut world = World::new(vec![document(1, 101, false)]);
    let id = world.id();
    let response = try_reserve_execution(&mut world.pool).unwrap();
    let shared = world.pool.share(&response);
    let job = world.try_execute(&id, shared, form()).unwrap();
    world.pool.release(response);

    for _ in 1..MAX_ADMITTED_EXECUTIONS {
        assert!(try_reserve_execution(&mut world.pool).is_some());
    }
    assert!(try_reserve_execution(&mut world.pool).is_none());

    assert_eq!(world.cancel(job), CancelResult::Accepted);
    assert!(try_reserve_execution(&mut world.pool).is_some());
}

#[test]
fn queued_cancel_and_deadline_have_one_serialized_winner() {
    let mut world = World::new(vec![document(1, 101, false)]);
    let id = world.id();

    let expired = world.execute(&id, form()).unwrap();
    world.now += EXECUTION_START_TIMEOUT;
    world.timers();
    assert_eq!(world.cancel(expired), CancelResult::NotFound);
    assert!(matches!(
        world.executed(expired).unwrap(),
        ExecOutcome::Failure(ExecFailure {
            drawing_outcome: DrawingOutcome::NotStarted,
            ..
        })
    ));

    let cancelled = world.execute(&id, form()).unwrap();
    assert_eq!(world.cancel(cancelled), CancelResult::Accepted);
    world.now += EXECUTION_START_TIMEOUT;
    world.timers();
    assert_eq!(world.executed(cancelled).unwrap(), ExecOutcome::Cancelled);
}

#[test]
fn mutation_job_capacity_bounds_disconnected_waiters() {
    let mut world = World::new(vec![document(1, 101, true)]);
    let id = world.id();
    let active = world.save(&id);
    let action = world.take();
    assert_eq!(action.kind, NativeActionKind::Save);

    let mut queued = Vec::new();
    for _ in 1..MAX_MUTATION_JOBS {
        queued.push(world.save(&id));
    }

    assert_eq!(world.refused_save(&id), Err(Error::MutationCapacity));

    world.stop();
    world.complete(action.job_id, NativeActionResultKind::SaveFailed);
    assert!(matches!(
        save_outcome(world.outcome(active)),
        Err(Error::SaveFailed(_))
    ));

    for job in queued {
        assert_eq!(save_outcome(world.outcome(job)), Err(Error::PluginStopping));
    }
}

#[test]
fn the_size_of_admitted_sources_is_limited() {
    let mut world = World::new(vec![document(1, 101, false)]);
    let id = world.id();
    let source = "x".repeat(4 * 1024 * 1024);
    for _ in 0..8 {
        let execution = execution(ExecMode::Exec, "large.lsp", &source);
        world.execute(&id, execution).unwrap();
    }
    assert_eq!(world.scheduler.execution_usage(), (8, 32 * 1024 * 1024));
    assert_eq!(world.scheduler.mutation_job_count(), 8);
}

#[test]
fn an_execution_that_finds_no_room_uses_up_a_number() {
    let mut world = World::new(vec![document(1, 101, false)]);
    let id = world.id();
    let mut last = 0;
    for _ in 0..MAX_ADMITTED_EXECUTIONS {
        last = world.execute(&id, form()).unwrap();
    }
    assert_eq!(world.cancel(last), CancelResult::Accepted);
    last = world.execute(&id, form()).unwrap();
    let place = world.pool.share(&ExecutionReservation { place: 0 });
    assert_eq!(
        world.try_execute(&id, place, form()),
        Err(Error::ExecutionCapacity)
    );
    assert_eq!(world.cancel(last), CancelResult::Accepted);
    assert_eq!(world.execute(&id, form()).unwrap(), last + 2);
    let place = world.pool.share(&ExecutionReservation { place: 0 });
    world.stop();
    assert_eq!(world.try_execute(&id, place, form()), Err(Error::PluginStopping));
}

#[test]
fn an_empty_batch_is_settled_at_once() {
    let mut world = World::new(vec![document(1, 101, false)]);
    let id = world.id();
    let empty = || execution(ExecMode::Exec, "empty.lsp", "; nothing");
    let job = world.execute(&id, empty()).unwrap();
    assert_eq!(world.executed(job).unwrap(), ExecOutcome::Success);
    assert_eq!(world.poll(job), ChunkPoll::Ended);
    assert_eq!(world.wakes, 0);

    let job = world.execute("absent", empty()).unwrap();
    assert_eq!(
        world.executed(job),
        Err(Error::DocumentNotFound("absent".into()))
    );
}

#[test]
fn an_operation_that_needs_no_native_work_is_answered_at_once() {
    let mut read_only = document(1, 101, true);
    read_only.read_only = true;
    let mut unnamed = document(2, 102, true);
    unnamed.named = false;
    unnamed.name = "Drawing1.dwg".into();
    let mut other = document(3, 103, true);
    other.name = "/tmp/plan.dxf".into();
    let mut world = World::new(vec![read_only, unnamed, other, document(4, 104, false)]);
    let ids: Vec<String> = scheduler::list(&world.scheduler)
        .iter()
        .map(|document| document.id.clone())
        .collect();

    assert_eq!(world.refused_save(&ids[0]), Err(Error::ReadOnly(ids[0].clone())));
    assert_eq!(world.refused_save(&ids[1]), Err(Error::Unnamed(ids[1].clone())));
    assert_eq!(world.refused_save(&ids[2]), Err(Error::NotDwg));
    assert_eq!(world.refused_save(&ids[3]).unwrap().id, ids[3]);
    assert_eq!(
        world.refused_save("absent"),
        Err(Error::DocumentNotFound("absent".into()))
    );
    let Submission::Done(closed) = scheduler::close(&mut world.scheduler, ids[0].clone(), false)
    else {
        panic!("unsaved changes need no native work");
    };
    assert_eq!(close_outcome(closed), Err(Error::Dirty(ids[0].clone())));
    let Submission::Done(opened) = scheduler::open(&mut world.scheduler, "/tmp/plan.dxf".into())
    else {
        panic!("an open file needs no native work");
    };
    assert_eq!(open_outcome(opened).unwrap().id, ids[2]);
    assert_eq!(world.wakes, 0);
}

#[test]
fn operations_that_autocad_did_not_publish_are_reported() {
    let mut world = World::new(vec![document(1, 101, true)]);
    let id = world.id();
    let save = world.save(&id);
    let action = world.take();
    world.complete(action.job_id, NativeActionResultKind::Success);
    assert_eq!(save_outcome(world.outcome(save)), Err(Error::SaveNotPublished));

    let close = world.close(&id, true);
    let action = world.take();
    world.complete(action.job_id, NativeActionResultKind::Success);
    assert_eq!(close_outcome(world.outcome(close)), Err(Error::CloseNotPublished));

    let open = world.open("/tmp/other.dwg");
    let action = world.take();
    assert_eq!(action.path, "/tmp/other.dwg");
    world.complete(action.job_id, NativeActionResultKind::Success);
    assert_eq!(open_outcome(world.outcome(open)), Err(Error::OpenNotPublished));
}

#[test]
fn outcomes_of_another_kind_are_errors() {
    assert_eq!(
        open_outcome(Ok(OperationOutcome::Closed)),
        Err(Error::OpenNotPublished)
    );
    assert_eq!(
        save_outcome(Ok(OperationOutcome::Closed)),
        Err(Error::SaveNotPublished)
    );
    assert_eq!(
        history_outcome(Ok(OperationOutcome::Closed)),
        Err(Error::DocumentGone)
    );
    assert_eq!(
        close_outcome(Ok(OperationOutcome::Execution(ExecOutcome::Success))),
        Err(Error::CloseNotPublished)
    );
    assert_eq!(
        execution_outcome(Ok(OperationOutcome::Closed)),
        Err(Error::ExecutionNotFinished)
    );
}

#[test]
fn every_error_has_its_message() {
    let failure = |detail: &str| NativeFailure { status: -5001, detail: detail.into() };
    let messages = [
        (Error::SchedulerStateUnavailable, "mutation scheduler state is unavailable"),
        (
            Error::ScheduleFailed(-3),
            "AutoCAD could not schedule the operation (status -3)",
        ),
        (Error::Stopped, "the native operation stopped before completion"),
        (Error::PluginStopping, "the acadctl plugin is stopping"),
        (Error::DocumentNotFound("2az789".into()), "Document '2az789' is not open."),
        (Error::DocumentGone, "The document is no longer open"),
        (
            Error::DocumentGenerationChanged,
            "The document was replaced before AutoCAD could perform the operation",
        ),
        (
            Error::Unnamed("2az789".into()),
            "Document '2az789' has no file name. Save As is not supported yet.",
        ),
        (Error::ReadOnly("2az789".into()), "Document '2az789' is read-only."),
        (
            Error::Dirty("2az789".into()),
            "Document '2az789' has unsaved changes. Run `acadctl save 2az789` first or use `acadctl close 2az789 --discard`.",
        ),
        (Error::NotDwg, "Only DWG drawings can be saved"),
        (Error::OpenFailed(failure("no such file")), "Could not open the drawing: no such file"),
        (
            Error::LockFailed(failure("")),
            "Could not lock the document (ObjectARX status -5001)",
        ),
        (Error::SaveFailed(failure("full")), "Could not save the document: full"),
        (Error::CloseFailed(failure("busy")), "Could not close the document: busy"),
        (
            Error::HistoryFailed { direction: HistoryDirection::Undo, failure: failure("no") },
            "Could not undo the drawing's last history step: no",
        ),
        (
            Error::HistoryFailed { direction: HistoryDirection::Redo, failure: failure("") },
            "Could not redo the drawing's next history step (ObjectARX status -5001)",
        ),
        (
            Error::OpenNotPublished,
            "AutoCAD opened the drawing but did not publish its document state",
        ),
        (
            Error::SaveNotPublished,
            "AutoCAD completed the save but still reports unsaved changes",
        ),
        (
            Error::CloseNotPublished,
            "AutoCAD completed the close but the document is still open",
        ),
        (Error::NotQuiescent, "The document is busy"),
        (Error::UndoDisabled, "Undo recording is disabled for the document"),
        (
            Error::DocumentContextFailed(failure("x")),
            "Could not establish document context: x",
        ),
        (
            Error::DocumentContextRestoreFailed(failure("x")),
            "Could not release the AutoCAD document context safely: x",
        ),
        (
            Error::ExecutionBridgeFinalizationFailed(failure("x")),
            "Could not release native execution state safely: x",
        ),
        (
            Error::ExecutionBridgeSymbolsClearFailed(failure("x")),
            "Could not clear the reserved AutoLISP execution bridge symbols: x",
        ),
        (
            Error::ExecutionBridgeFailed(failure("x")),
            "The AutoLISP execution bridge failed: x",
        ),
        (
            Error::ExecutionNotFinished,
            "The native execution ended without a terminal outcome",
        ),
        (
            Error::MutationCapacity,
            "AutoCAD already has the maximum number of pending operations",
        ),
        (
            Error::ExecutionCapacity,
            "AutoCAD already has the maximum number or total size of execution requests",
        ),
        (
            Error::NativeMutationStateUnknown,
            "AutoCAD's mutation context is unknown; restart AutoCAD before issuing another mutation",
        ),
        (
            Error::UnknownResult(99),
            "AutoCAD returned an unknown native result (99)",
        ),
    ];
    for (error, message) in messages {
        assert_eq!(error.message(), message);
    }
    assert!(Error::Stopped.is_internal());
    assert!(!Error::PluginStopping.is_internal());
}

#[test]
fn a_failed_history_step_of_another_operation_is_an_unknown_result() {
    assert_eq!(
        interpret(
            result(NativeActionResultKind::HistoryFailed),
            &Operation::Save { id: "doc".into() }
        ),
        Err(Error::UnknownResult(NativeActionResultKind::HistoryFailed.code()))
    );
    assert_eq!(
        interpret(
            result(NativeActionResultKind::Other(77)),
            &Operation::Save { id: "doc".into() }
        ),
        Err(Error::UnknownResult(77))
    );
    assert_eq!(
        interpret(
            result(NativeActionResultKind::HistoryFailed),
            &Operation::History { id: "doc".into(), direction: HistoryDirection::Redo }
        ),
        Err(Error::HistoryFailed {
            direction: HistoryDirection::Redo,
            failure: NativeFailure { status: 0, detail: String::new() },
        })
    );
}

#[test]
fn an_abandoned_execution_leaves_the_drawing_in_doubt() {
    let mut world = World::new(vec![document(1, 101, false)]);
    let id = world.id();
    let job = world.execute(&id, form()).unwrap();
    assert_eq!(world.take().job_id, job);
    world.begin(job);
    assert_eq!(world.step(job), ExecStepKind::EvaluateForm);
    assert!(!scheduler::abandon_execution(&mut world.scheduler, job + 1, step_error("no")));
    assert!(scheduler::abandon_execution(&mut world.scheduler, job, step_error("gone")));
    assert_eq!(world.step(job), ExecStepKind::Done);
    assert_eq!(world.step(job + 1), ExecStepKind::Invalid);
    world.complete(job, NativeActionResultKind::Success);
    let Ok(ExecOutcome::Failure(failure)) = world.executed(job) else {
        panic!("an abandoned execution fails");
    };
    assert_eq!(failure.message, "gone");
    assert_eq!(failure.drawing_outcome, DrawingOutcome::Unknown);
}
