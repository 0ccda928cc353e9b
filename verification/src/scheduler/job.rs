//! One operation on its way through the scheduler.
use vstd::prelude::*;

use super::error::{Error, ErrorView, HistoryDirection, NativeFailure, NativeFailureView};
use super::reservations::ExecutionReservation;
use crate::documents::{
    Document, DocumentRegistry, DocumentTarget, DocumentView, NativeDocumentKey,
};
use crate::exec::lisp::StepResultView;
use crate::exec::outcome::{ExecOutcome, OutcomeView};
use crate::exec::state::{Exec, ExecView};
use crate::exec::{ExecStepResult, ExecStepResultKind};
use crate::execution::output::{OutputSink, OutputView};
use crate::naming;
use crate::naming::is_dwg;
use crate::native::{
    ActionResultView, NativeActionKind, NativeActionResult, NativeActionResultKind,
};
use crate::registry;
use crate::registry::EntryView;

verus! {

/// How long an execution may wait before its first form, in milliseconds.
pub const EXECUTION_START_TIMEOUT: u64 = 5000;

/// How long a busy document is left alone at first, in milliseconds.
pub const BUSY_RETRY_INITIAL: u64 = 50;

/// How long a busy document is left alone at most, in milliseconds.
pub const BUSY_RETRY_MAX: u64 = 500;

/// What an execution that did not start in time reports.
pub open spec fn timeout_message() -> Seq<char> {
    "execution did not start within 5 seconds"@
}

/// What is to be done.
pub enum Operation {
    Open { path: String },
    Save { id: String },
    Close { id: String, discard: bool },
    History { id: String, direction: HistoryDirection },
    Execute { id: String, execution: Exec },
}

#[verifier::ext_equal]
pub enum OperationView {
    Open { path: Seq<char> },
    Save { id: Seq<char> },
    Close { id: Seq<char>, discard: bool },
    History { id: Seq<char>, direction: HistoryDirection },
    Execute { id: Seq<char>, execution: ExecView },
}

/// What came of an operation.
#[derive(Debug, PartialEq, Eq)]
pub enum OperationOutcome {
    Document(Document),
    Closed,
    Execution(ExecOutcome),
}

#[verifier::ext_equal]
pub enum OperationOutcomeView {
    Document(DocumentView),
    Closed,
    Execution(OutcomeView),
}

/// What the native side is asked to do, and for which job.
#[derive(Debug, PartialEq, Eq)]
pub struct NativeAction {
    pub job_id: u64,
    pub kind: NativeActionKind,
    pub document_token: usize,
    pub database_token: usize,
    pub path: String,
    pub discard: bool,
}

#[verifier::ext_equal]
pub struct ActionView {
    pub job_id: u64,
    pub kind: NativeActionKind,
    pub document_token: usize,
    pub database_token: usize,
    pub path: Seq<char>,
    pub discard: bool,
}

/// An operation needs the native side, or its outcome is known without.
pub enum Prepared {
    Immediate(Result<OperationOutcome, Error>),
    Native(NativeAction),
}

#[verifier::ext_equal]
pub enum PreparedView {
    Immediate(Result<OperationOutcomeView, ErrorView>),
    Native(ActionView),
}

/// An operation and what the scheduler remembers of it. Times are in milliseconds.
pub struct MutationJob {
    pub job_id: u64,
    pub operation: Operation,
    pub native_target: Option<NativeDocumentKey>,
    pub start_deadline: Option<u64>,
    pub waiting_for_readiness: bool,
    pub retry_at: Option<u64>,
    pub retry_delay: u64,
    pub reservation: Option<ExecutionReservation>,
}

#[verifier::ext_equal]
pub struct JobView {
    pub job_id: u64,
    pub operation: OperationView,
    pub native_target: Option<NativeDocumentKey>,
    pub start_deadline: Option<u64>,
    pub waiting_for_readiness: bool,
    pub retry_at: Option<u64>,
    pub retry_delay: u64,
    pub reservation: Option<ExecutionReservation>,
}

/// What is left of a job that is over: whoever waits for it is told the outcome, a
/// reader drains the output, and the reservation is given back.
pub struct Settled {
    pub job_id: u64,
    pub outcome: Result<OperationOutcome, Error>,
    pub output: Option<OutputSink>,
    pub reservation: Option<ExecutionReservation>,
}

#[verifier::ext_equal]
pub struct SettledView {
    pub job_id: u64,
    pub outcome: Result<OperationOutcomeView, ErrorView>,
    pub output: Option<OutputView>,
    pub reservation: Option<ExecutionReservation>,
}

/// How the output of a job that is over ends.
#[derive(Clone, Copy, Debug, PartialEq, Eq, Structural)]
pub enum OutputEnd {
    Finished,
    Stopped,
    Cancelled,
}

impl View for Operation {
    type V = OperationView;

    open spec fn view(&self) -> OperationView {
        match self {
            Operation::Open { path } => OperationView::Open { path: path@ },
            Operation::Save { id } => OperationView::Save { id: id@ },
            Operation::Close { id, discard } => OperationView::Close {
                id: id@,
                discard: *discard,
            },
            Operation::History { id, direction } => OperationView::History {
                id: id@,
                direction: *direction,
            },
            Operation::Execute { id, execution } => OperationView::Execute {
                id: id@,
                execution: execution@,
            },
        }
    }
}

impl View for OperationOutcome {
    type V = OperationOutcomeView;

    open spec fn view(&self) -> OperationOutcomeView {
        match self {
            OperationOutcome::Document(document) => OperationOutcomeView::Document(document@),
            OperationOutcome::Closed => OperationOutcomeView::Closed,
            OperationOutcome::Execution(outcome) => OperationOutcomeView::Execution(outcome@),
        }
    }
}

/// An outcome or an error.
pub open spec fn result_view(result: Result<OperationOutcome, Error>) -> Result<
    OperationOutcomeView,
    ErrorView,
> {
    match result {
        Ok(outcome) => Ok(outcome@),
        Err(error) => Err(error@),
    }
}

impl View for NativeAction {
    type V = ActionView;

    open spec fn view(&self) -> ActionView {
        ActionView {
            job_id: self.job_id,
            kind: self.kind,
            document_token: self.document_token,
            database_token: self.database_token,
            path: self.path@,
            discard: self.discard,
        }
    }
}

impl View for Prepared {
    type V = PreparedView;

    open spec fn view(&self) -> PreparedView {
        match self {
            Prepared::Immediate(result) => PreparedView::Immediate(result_view(*result)),
            Prepared::Native(action) => PreparedView::Native(action@),
        }
    }
}

impl View for MutationJob {
    type V = JobView;

    open spec fn view(&self) -> JobView {
        JobView {
            job_id: self.job_id,
            operation: self.operation@,
            native_target: self.native_target,
            start_deadline: self.start_deadline,
            waiting_for_readiness: self.waiting_for_readiness,
            retry_at: self.retry_at,
            retry_delay: self.retry_delay,
            reservation: self.reservation,
        }
    }
}

pub open spec fn output_view(output: Option<OutputSink>) -> Option<OutputView> {
    match output {
        Some(sink) => Some(sink@),
        None => None,
    }
}

impl View for Settled {
    type V = SettledView;

    open spec fn view(&self) -> SettledView {
        SettledView {
            job_id: self.job_id,
            outcome: result_view(self.outcome),
            output: output_view(self.output),
            reservation: self.reservation,
        }
    }
}

impl Settled {
    pub open spec fn well_formed(&self) -> bool {
        self.output matches Some(sink) ==> sink.well_formed()
    }
}

impl OutputEnd {
    /// A channel at its end.
    pub open spec fn closed(self, output: OutputView) -> OutputView {
        match self {
            OutputEnd::Finished => OutputView { finished: true, ..output.closed() },
            OutputEnd::Stopped => OutputView { stopped: true, ..output.discarded() },
            OutputEnd::Cancelled => OutputView { cancelled: true, ..output.closed() },
        }
    }
}

impl OperationView {
    pub open spec fn document_id(self) -> Seq<char> {
        match self {
            OperationView::Open { .. } => Seq::empty(),
            OperationView::Save { id } => id,
            OperationView::Close { id, .. } => id,
            OperationView::History { id, .. } => id,
            OperationView::Execute { id, .. } => id,
        }
    }

    pub open spec fn execution(self) -> Option<ExecView> {
        match self {
            OperationView::Execute { execution, .. } => Some(execution),
            _ => None,
        }
    }

    /// The operation with its execution in another state.
    pub open spec fn with_execution(self, execution: ExecView) -> OperationView {
        match self {
            OperationView::Execute { id, .. } => OperationView::Execute { id, execution },
            other => other,
        }
    }

    /// The outcome of the execution, where there is one.
    pub open spec fn execution_outcome(self) -> Option<OutcomeView> {
        match self {
            OperationView::Execute { execution, .. } => execution.outcome,
            _ => None,
        }
    }

    /// The path of the document that is to be saved.
    pub open spec fn save_path(self, documents: Seq<EntryView<DocumentView>>) -> Option<
        Seq<char>,
    > {
        match self {
            OperationView::Save { id } => match registry::with_id::<Document>(documents, id) {
                Some(target) => target.document.file_path,
                None => None,
            },
            _ => None,
        }
    }

    /// What was found out about the path of the document that is to be saved.
    pub open spec fn save_path_is(
        self,
        documents: Seq<EntryView<DocumentView>>,
        dwg: bool,
    ) -> bool {
        self.save_path(documents) matches Some(path) ==> naming::may_be_dwg(path, dwg)
    }

    /// What an operation comes to on the open documents, where `dwg` says whether the
    /// document that is to be saved is a drawing file.
    pub open spec fn prepared(
        self,
        documents: Seq<EntryView<DocumentView>>,
        ignore_case: bool,
        dwg: bool,
    ) -> PreparedView {
        match self {
            OperationView::Open { path } => match registry::with_path::<Document>(
                documents,
                path,
                ignore_case,
            ) {
                Some(target) => PreparedView::Immediate(
                    Ok(OperationOutcomeView::Document(target.document)),
                ),
                None => PreparedView::Native(
                    action(NativeActionKind::Open, None, path, false),
                ),
            },
            OperationView::Save { id } => match registry::with_id::<Document>(documents, id) {
                Some(target) => save_prepared(id, target, dwg),
                None => PreparedView::Immediate(Err(ErrorView::DocumentNotFound(id))),
            },
            OperationView::Close { id, discard } => match registry::with_id::<Document>(
                documents,
                id,
            ) {
                Some(target) => if target.document.modified && !discard {
                    PreparedView::Immediate(Err(ErrorView::Dirty(id)))
                } else {
                    PreparedView::Native(
                        action(
                            NativeActionKind::Close,
                            Some(target.native_key),
                            Seq::empty(),
                            discard,
                        ),
                    )
                },
                None => PreparedView::Immediate(Err(ErrorView::DocumentNotFound(id))),
            },
            OperationView::History { id, direction } => match registry::with_id::<Document>(
                documents,
                id,
            ) {
                Some(target) => PreparedView::Native(
                    action(
                        match direction {
                            HistoryDirection::Undo => NativeActionKind::Undo,
                            HistoryDirection::Redo => NativeActionKind::Redo,
                        },
                        Some(target.native_key),
                        Seq::empty(),
                        false,
                    ),
                ),
                None => PreparedView::Immediate(Err(ErrorView::DocumentNotFound(id))),
            },
            OperationView::Execute { id, execution } => match registry::with_id::<Document>(
                documents,
                id,
            ) {
                Some(target) => match execution.outcome {
                    Some(outcome) => PreparedView::Immediate(
                        Ok(OperationOutcomeView::Execution(outcome)),
                    ),
                    None => PreparedView::Native(
                        action(
                            NativeActionKind::QueueExecutionDriver,
                            Some(target.native_key),
                            Seq::empty(),
                            false,
                        ),
                    ),
                },
                None => PreparedView::Immediate(Err(ErrorView::DocumentNotFound(id))),
            },
        }
    }

    /// What came of an operation that the native side reports as done.
    pub open spec fn finalized(
        self,
        documents: Seq<EntryView<DocumentView>>,
        ignore_case: bool,
        native_target: Option<NativeDocumentKey>,
    ) -> Result<OperationOutcomeView, ErrorView> {
        match self {
            OperationView::Open { path } => match registry::with_path::<Document>(
                documents,
                path,
                ignore_case,
            ) {
                Some(target) => Ok(OperationOutcomeView::Document(target.document)),
                None => Err(ErrorView::OpenNotPublished),
            },
            OperationView::Save { id } => match registry::with_id::<Document>(documents, id) {
                Some(target) => if target.document.modified {
                    Err(ErrorView::SaveNotPublished)
                } else {
                    Ok(OperationOutcomeView::Document(target.document))
                },
                None => Err(ErrorView::DocumentNotFound(id)),
            },
            OperationView::Close { id, .. } => match registry::with_id::<Document>(documents, id) {
                Some(_) => Err(ErrorView::CloseNotPublished),
                None => Ok(OperationOutcomeView::Closed),
            },
            OperationView::History { id, .. } => match (
                native_target,
                registry::with_id::<Document>(documents, id),
            ) {
                (Some(expected), Some(target)) => if target.native_key != expected {
                    Err(ErrorView::DocumentGenerationChanged)
                } else {
                    Ok(OperationOutcomeView::Document(target.document))
                },
                _ => Err(ErrorView::DocumentGone),
            },
            OperationView::Execute { execution, .. } => match execution.outcome {
                Some(outcome) => Ok(OperationOutcomeView::Execution(outcome)),
                None => Err(ErrorView::ExecutionNotFinished),
            },
        }
    }

    /// The error that a native result stands for.
    pub open spec fn native_error(self, result: ActionResultView) -> Option<ErrorView> {
        let failure = NativeFailureView {
            status: result.native_status,
            detail: result.native_detail,
        };
        match result.kind {
            NativeActionResultKind::Success => None,
            NativeActionResultKind::DocumentGone => Some(ErrorView::DocumentGone),
            NativeActionResultKind::DocumentGenerationChanged => Some(
                ErrorView::DocumentGenerationChanged,
            ),
            NativeActionResultKind::Unnamed => Some(ErrorView::Unnamed(self.document_id())),
            NativeActionResultKind::ReadOnly => Some(ErrorView::ReadOnly(self.document_id())),
            NativeActionResultKind::Dirty => Some(ErrorView::Dirty(self.document_id())),
            NativeActionResultKind::OpenFailed => Some(ErrorView::OpenFailed(failure)),
            NativeActionResultKind::LockFailed => Some(ErrorView::LockFailed(failure)),
            NativeActionResultKind::SaveFailed => Some(ErrorView::SaveFailed(failure)),
            NativeActionResultKind::CloseFailed => Some(ErrorView::CloseFailed(failure)),
            NativeActionResultKind::HistoryFailed => match self {
                OperationView::History { direction, .. } => Some(
                    ErrorView::HistoryFailed { direction, failure },
                ),
                _ => Some(ErrorView::UnknownResult(result.kind.number())),
            },
            NativeActionResultKind::NotQuiescent => Some(ErrorView::NotQuiescent),
            NativeActionResultKind::UndoDisabled => Some(ErrorView::UndoDisabled),
            NativeActionResultKind::DocumentContextFailed => Some(
                ErrorView::DocumentContextFailed(failure),
            ),
            NativeActionResultKind::DocumentContextRestoreFailed => Some(
                ErrorView::DocumentContextRestoreFailed(failure),
            ),
            NativeActionResultKind::ExecutionBridgeFinalizationFailed => Some(
                ErrorView::ExecutionBridgeFinalizationFailed(failure),
            ),
            NativeActionResultKind::ExecutionBridgeSymbolsClearFailed => Some(
                ErrorView::ExecutionBridgeSymbolsClearFailed(failure),
            ),
            NativeActionResultKind::ExecutionBridgeFailed => Some(
                ErrorView::ExecutionBridgeFailed(failure),
            ),
            _ => Some(ErrorView::UnknownResult(result.kind.number())),
        }
    }

    /// What came of an operation, given what the native side reports. An execution
    /// that has an outcome keeps it, unless the native state is in doubt: then the
    /// outcome becomes a failure that leaves the drawing in doubt too.
    pub open spec fn completed(
        self,
        result: ActionResultView,
        documents: Seq<EntryView<DocumentView>>,
        ignore_case: bool,
        native_target: Option<NativeDocumentKey>,
    ) -> Result<OperationOutcomeView, ErrorView> {
        let plain = self.finalized(documents, ignore_case, native_target);
        match self.execution_outcome() {
            Some(outcome) => match result.kind {
                NativeActionResultKind::DocumentContextRestoreFailed
                | NativeActionResultKind::ExecutionBridgeFinalizationFailed => Ok(
                    OperationOutcomeView::Execution(
                        OutcomeView::Failure(
                            outcome.into_unknown_failure(
                                (StepResultView {
                                    detail: result.native_detail,
                                    ..StepResultView::native_error(result.native_status)
                                }).message(
                                    "the execution bridge could not be finalized safely"@,
                                ),
                            ),
                        ),
                    ),
                ),
                NativeActionResultKind::ExecutionBridgeSymbolsClearFailed => if outcome is Failure {
                    plain
                } else {
                    Err(self.native_error(result)->0)
                },
                NativeActionResultKind::ExecutionBridgeFailed => Err(self.native_error(result)->0),
                _ => plain,
            },
            None => match self.native_error(result) {
                Some(error) => Err(error),
                None => plain,
            },
        }
    }
}

/// An action for the native side, on a document or on none.
pub open spec fn action(
    kind: NativeActionKind,
    target: Option<NativeDocumentKey>,
    path: Seq<char>,
    discard: bool,
) -> ActionView {
    ActionView {
        job_id: 0,
        kind,
        document_token: match target {
            Some(key) => key.document_token,
            None => 0,
        },
        database_token: match target {
            Some(key) => key.database_token,
            None => 0,
        },
        path,
        discard,
    }
}

/// What saving comes to: a document that cannot be saved is refused, and one without
/// changes needs nothing.
pub open spec fn save_prepared(
    id: Seq<char>,
    target: EntryView<DocumentView>,
    dwg: bool,
) -> PreparedView {
    if target.document.read_only {
        PreparedView::Immediate(Err(ErrorView::ReadOnly(id)))
    } else if target.document.file_path is None {
        PreparedView::Immediate(Err(ErrorView::Unnamed(id)))
    } else if !dwg {
        PreparedView::Immediate(Err(ErrorView::NotDwg))
    } else if !target.document.modified {
        PreparedView::Immediate(Ok(OperationOutcomeView::Document(target.document)))
    } else {
        PreparedView::Native(
            action(NativeActionKind::Save, Some(target.native_key), Seq::empty(), false),
        )
    }
}

pub fn native_action(
    kind: NativeActionKind,
    target: Option<NativeDocumentKey>,
    path: String,
    discard: bool,
) -> (result: NativeAction)
    ensures
        result@ == action(kind, target, path@, discard),
{
    let (document_token, database_token) = match target {
        Some(key) => (key.document_token, key.database_token),
        None => (0, 0),
    };
    NativeAction { job_id: 0, kind, document_token, database_token, path, discard }
}

/// Nothing to do.
pub open spec fn no_action() -> ActionView {
    action(NativeActionKind::Idle, None, Seq::empty(), false)
}

pub fn empty_action() -> (result: NativeAction)
    ensures
        result@ == no_action(),
{
    native_action(NativeActionKind::Idle, None, String::new(), false)
}

/// Whether the document that is to be saved is a drawing file.
pub fn saves_dwg(operation: &Operation, documents: &DocumentRegistry) -> (dwg: bool)
    ensures
        operation@.save_path_is(documents@, dwg),
{
    if let Operation::Save { id } = operation {
        if let Some(target) = documents.find_by_id(id.as_str()) {
            if let Some(path) = &target.document.file_path {
                return is_dwg(path.as_str());
            }
        }
    }
    false
}

/// What an operation comes to on the open documents.
pub fn prepare(
    operation: &Operation,
    documents: &DocumentRegistry,
    ignore_case: bool,
    dwg: bool,
) -> (prepared: Prepared)
    ensures
        prepared@ == operation@.prepared(documents@, ignore_case, dwg),
{
    match operation {
        Operation::Open { path } => match documents.find_by_path(path.as_str(), ignore_case) {
            Some(target) => Prepared::Immediate(Ok(OperationOutcome::Document(target.document))),
            None => Prepared::Native(
                native_action(NativeActionKind::Open, None, path.as_str().to_owned(), false),
            ),
        },
        Operation::Save { id } => match documents.find_by_id(id.as_str()) {
            Some(target) => prepare_save(id.as_str(), target, dwg),
            None => not_found(id.as_str()),
        },
        Operation::Close { id, discard } => match documents.find_by_id(id.as_str()) {
            Some(target) => if target.document.modified && !*discard {
                Prepared::Immediate(Err(Error::Dirty(id.as_str().to_owned())))
            } else {
                Prepared::Native(
                    native_action(
                        NativeActionKind::Close,
                        Some(target.native_key),
                        String::new(),
                        *discard,
                    ),
                )
            },
            None => not_found(id.as_str()),
        },
        Operation::History { id, direction } => match documents.find_by_id(id.as_str()) {
            Some(target) => Prepared::Native(
                native_action(
                    match direction {
                        HistoryDirection::Undo => NativeActionKind::Undo,
                        HistoryDirection::Redo => NativeActionKind::Redo,
                    },
                    Some(target.native_key),
                    String::new(),
                    false,
                ),
            ),
            None => not_found(id.as_str()),
        },
        Operation::Execute { id, execution } => match documents.find_by_id(id.as_str()) {
            Some(target) => match execution.outcome() {
                Some(outcome) => Prepared::Immediate(
                    Ok(OperationOutcome::Execution(outcome.duplicate())),
                ),
                None => Prepared::Native(
                    native_action(
                        NativeActionKind::QueueExecutionDriver,
                        Some(target.native_key),
                        String::new(),
                        false,
                    ),
                ),
            },
            None => not_found(id.as_str()),
        },
    }
}

fn not_found(id: &str) -> (prepared: Prepared)
    ensures
        prepared@ == PreparedView::Immediate(Err(ErrorView::DocumentNotFound(id@))),
{
    Prepared::Immediate(Err(Error::DocumentNotFound(id.to_owned())))
}

/// What saving a document comes to.
pub fn prepare_save(id: &str, target: DocumentTarget, dwg: bool) -> (prepared: Prepared)
    ensures
        prepared@ == save_prepared(id@, target@, dwg),
{
    if target.document.read_only {
        return Prepared::Immediate(Err(Error::ReadOnly(id.to_owned())));
    }
    if target.document.file_path.is_none() {
        return Prepared::Immediate(Err(Error::Unnamed(id.to_owned())));
    }
    if !dwg {
        return Prepared::Immediate(Err(Error::NotDwg));
    }
    if !target.document.modified {
        return Prepared::Immediate(Ok(OperationOutcome::Document(target.document)));
    }
    Prepared::Native(
        native_action(NativeActionKind::Save, Some(target.native_key), String::new(), false),
    )
}

/// What came of an operation that the native side reports as done. The outcome of an
/// execution is taken out of it.
pub fn finalize(
    operation: &mut Operation,
    documents: &DocumentRegistry,
    ignore_case: bool,
    native_target: Option<NativeDocumentKey>,
) -> (result: Result<OperationOutcome, Error>)
    requires
        old(operation).well_formed(),
    ensures
        final(operation).well_formed(),
        result_view(result) == old(operation)@.finalized(documents@, ignore_case, native_target),
        final(operation)@ == match old(operation)@ {
            OperationView::Execute { id, execution } => OperationView::Execute {
                id,
                execution: ExecView { outcome: None, ..execution },
            },
            other => other,
        },
{
    match operation {
        Operation::Open { path } => match documents.find_by_path(path.as_str(), ignore_case) {
            Some(target) => Ok(OperationOutcome::Document(target.document)),
            None => Err(Error::OpenNotPublished),
        },
        Operation::Save { id } => match documents.find_by_id(id.as_str()) {
            Some(target) => if target.document.modified {
                Err(Error::SaveNotPublished)
            } else {
                Ok(OperationOutcome::Document(target.document))
            },
            None => Err(Error::DocumentNotFound(id.as_str().to_owned())),
        },
        Operation::Close { id, .. } => match documents.find_by_id(id.as_str()) {
            Some(_) => Err(Error::CloseNotPublished),
            None => Ok(OperationOutcome::Closed),
        },
        Operation::History { id, .. } => match (native_target, documents.find_by_id(id.as_str())) {
            (Some(expected), Some(target)) => if target.native_key != expected {
                Err(Error::DocumentGenerationChanged)
            } else {
                Ok(OperationOutcome::Document(target.document))
            },
            _ => Err(Error::DocumentGone),
        },
        Operation::Execute { execution, .. } => match execution.take_outcome() {
            Some(outcome) => Ok(OperationOutcome::Execution(outcome)),
            None => Err(Error::ExecutionNotFinished),
        },
    }
}

/// The error that a native result stands for.
pub fn interpret(result: NativeActionResult, operation: &Operation) -> (interpreted: Result<
    (),
    Error,
>)
    ensures
        match interpreted {
            Ok(_) => operation@.native_error(result@) is None,
            Err(error) => operation@.native_error(result@) == Some(error@),
        },
{
    let kind = result.kind;
    let failure = NativeFailure { status: result.native_status, detail: result.native_detail };
    match kind {
        NativeActionResultKind::Success => Ok(()),
        NativeActionResultKind::DocumentGone => Err(Error::DocumentGone),
        NativeActionResultKind::DocumentGenerationChanged => Err(Error::DocumentGenerationChanged),
        NativeActionResultKind::Unnamed => Err(Error::Unnamed(operation.document_id().to_owned())),
        NativeActionResultKind::ReadOnly => {
            Err(Error::ReadOnly(operation.document_id().to_owned()))
        },
        NativeActionResultKind::Dirty => Err(Error::Dirty(operation.document_id().to_owned())),
        NativeActionResultKind::OpenFailed => Err(Error::OpenFailed(failure)),
        NativeActionResultKind::LockFailed => Err(Error::LockFailed(failure)),
        NativeActionResultKind::SaveFailed => Err(Error::SaveFailed(failure)),
        NativeActionResultKind::CloseFailed => Err(Error::CloseFailed(failure)),
        NativeActionResultKind::HistoryFailed => match operation {
            Operation::History { direction, .. } => Err(
                Error::HistoryFailed { direction: *direction, failure },
            ),
            _ => Err(Error::UnknownResult(kind.code())),
        },
        NativeActionResultKind::NotQuiescent => Err(Error::NotQuiescent),
        NativeActionResultKind::UndoDisabled => Err(Error::UndoDisabled),
        NativeActionResultKind::DocumentContextFailed => Err(Error::DocumentContextFailed(failure)),
        NativeActionResultKind::DocumentContextRestoreFailed => {
            Err(Error::DocumentContextRestoreFailed(failure))
        },
        NativeActionResultKind::ExecutionBridgeFinalizationFailed => {
            Err(Error::ExecutionBridgeFinalizationFailed(failure))
        },
        NativeActionResultKind::ExecutionBridgeSymbolsClearFailed => {
            Err(Error::ExecutionBridgeSymbolsClearFailed(failure))
        },
        NativeActionResultKind::ExecutionBridgeFailed => Err(Error::ExecutionBridgeFailed(failure)),
        NativeActionResultKind::DocumentChanged | NativeActionResultKind::Other(_) => {
            Err(Error::UnknownResult(kind.code()))
        },
    }
}

/// What came of an operation, given what the native side reports. The outcome of an
/// execution is handed out with it.
pub fn complete_operation(
    result: NativeActionResult,
    operation: &mut Operation,
    documents: &DocumentRegistry,
    ignore_case: bool,
    native_target: Option<NativeDocumentKey>,
) -> (outcome: Result<OperationOutcome, Error>)
    requires
        old(operation).well_formed(),
    ensures
        final(operation).well_formed(),
        result_view(outcome) == old(operation)@.completed(
            result@,
            documents@,
            ignore_case,
            native_target,
        ),
        match (final(operation)@, old(operation)@) {
            (
                OperationView::Execute { id, execution },
                OperationView::Execute { id: id_before, execution: before },
            ) => id == id_before && execution == (ExecView {
                outcome: if outcome is Ok {
                    None
                } else {
                    before.outcome
                },
                ..before
            }),
            (after, before) => after == before,
        },
{
    let kind = result.kind;
    let mut has_outcome = false;
    let mut has_failure = false;
    if let Operation::Execute { execution, .. } = &*operation {
        match execution.outcome() {
            Some(ExecOutcome::Failure(_)) => {
                has_outcome = true;
                has_failure = true;
            },
            Some(_) => {
                has_outcome = true;
            },
            None => {},
        }
    }
    if has_outcome {
        match kind {
            NativeActionResultKind::DocumentContextRestoreFailed
            | NativeActionResultKind::ExecutionBridgeFinalizationFailed => {
                if let Operation::Execute { execution, .. } = operation {
                    let _ = execution.record_bridge_finalization_failure(
                        ExecStepResult {
                            kind: ExecStepResultKind::NativeError,
                            native_status: result.native_status,
                            lisp_errno: 0,
                            detail: result.native_detail,
                            bridge_symbols_clear_status: 0,
                        },
                    );
                }
                return finalize(operation, documents, ignore_case, native_target);
            },
            NativeActionResultKind::ExecutionBridgeSymbolsClearFailed => {
                if has_failure {
                    return finalize(operation, documents, ignore_case, native_target);
                }
            },
            NativeActionResultKind::ExecutionBridgeFailed => {},
            _ => {
                return finalize(operation, documents, ignore_case, native_target);
            },
        }
    }
    match interpret(result, operation) {
        Ok(_) => finalize(operation, documents, ignore_case, native_target),
        Err(error) => Err(error),
    }
}

impl Operation {
    pub open spec fn well_formed(&self) -> bool {
        self matches Operation::Execute { execution, .. } ==> execution.well_formed()
    }

    /// The identifier of the document, or nothing for a file that is to be opened.
    pub fn document_id(&self) -> (id: &str)
        ensures
            id@ == self@.document_id(),
    {
        proof {
            reveal_strlit("");
            assert(""@ =~= Seq::<char>::empty());
        }
        match self {
            Operation::Open { .. } => "",
            Operation::Save { id } => id.as_str(),
            Operation::Close { id, .. } => id.as_str(),
            Operation::History { id, .. } => id.as_str(),
            Operation::Execute { id, .. } => id.as_str(),
        }
    }

    /// The output of an operation that is over, brought to its end.
    fn into_output(self, end: OutputEnd) -> (output: Option<OutputSink>)
        requires
            self.well_formed(),
        ensures
            output matches Some(sink) ==> sink.well_formed(),
            output_view(output) == match self@.execution() {
                Some(execution) => Some(end.closed(execution.output)),
                None => None,
            },
    {
        match self {
            Operation::Execute { execution, .. } => {
                let mut sink = execution.into_output();
                match end {
                    OutputEnd::Finished => sink.finish(),
                    OutputEnd::Stopped => sink.stop(),
                    OutputEnd::Cancelled => sink.request_cancel(),
                }
                Some(sink)
            },
            _ => None,
        }
    }
}

impl JobView {
    /// What is left of the job when it is over.
    pub open spec fn settled(
        self,
        outcome: Result<OperationOutcomeView, ErrorView>,
        end: OutputEnd,
    ) -> SettledView {
        SettledView {
            job_id: self.job_id,
            outcome,
            output: match self.operation.execution() {
                Some(execution) => Some(end.closed(execution.output)),
                None => None,
            },
            reservation: self.reservation,
        }
    }

    /// The start deadline still has to be watched.
    pub open spec fn start_pending(self) -> bool {
        self.operation.execution() matches Some(execution) && !execution.form_handed_off
            && execution.outcome is None && !execution.cancel_requested && execution.unwind is None
    }

    /// The start deadline has passed.
    pub open spec fn due(self, now: u64) -> bool {
        self.start_deadline matches Some(deadline) && now >= deadline && self.start_pending()
    }

    /// The start deadline ends the execution.
    pub open spec fn lapses(self, now: u64) -> bool {
        self.due(now) && self.operation.execution()->0.expirable()
    }

    /// After a look at the clock.
    pub open spec fn at(self, now: u64) -> JobView {
        if self.lapses(now) {
            JobView {
                operation: self.operation.with_execution(
                    self.operation.execution()->0.expired(timeout_message()),
                ),
                ..self
            }
        } else {
            self
        }
    }

    /// Left alone for a while, since the document is busy.
    pub open spec fn deferred(self, now: u64) -> JobView {
        JobView {
            native_target: None,
            waiting_for_readiness: true,
            retry_at: Some((now + self.retry_delay) as u64),
            retry_delay: if 2 * self.retry_delay < BUSY_RETRY_MAX {
                (2 * self.retry_delay) as u64
            } else {
                BUSY_RETRY_MAX
            },
            ..self
        }
    }

    /// An execution that has not handed out a form can be put off.
    pub open spec fn not_begun(self) -> bool {
        self.operation.execution() matches Some(execution) && !execution.form_handed_off
    }
}

impl MutationJob {
    pub open spec fn well_formed(&self) -> bool {
        &&& self.operation.well_formed()
        &&& self.retry_delay <= BUSY_RETRY_MAX
    }

    /// What is left of the job when it is over.
    pub fn settle(self, outcome: Result<OperationOutcome, Error>, end: OutputEnd) -> (settled:
        Settled)
        requires
            self.well_formed(),
        ensures
            settled.well_formed(),
            settled@ == self@.settled(result_view(outcome), end),
    {
        Settled {
            job_id: self.job_id,
            outcome,
            output: self.operation.into_output(end),
            reservation: self.reservation,
        }
    }

    pub fn execution_start_pending(&self) -> (result: bool)
        ensures
            result == self@.start_pending(),
    {
        match &self.operation {
            Operation::Execute { execution, .. } => execution.start_deadline_pending(),
            _ => false,
        }
    }

    pub fn deadline_is_due(&self, now: u64) -> (result: bool)
        ensures
            result == self@.due(now),
    {
        match self.start_deadline {
            Some(deadline) => now >= deadline && self.execution_start_pending(),
            None => false,
        }
    }

    /// Ends an execution that did not start in time; says whether it did.
    pub fn expire_if_due(&mut self, now: u64) -> (expired: bool)
        requires
            old(self).well_formed(),
        ensures
            final(self).well_formed(),
            expired == old(self)@.lapses(now),
            final(self)@ == old(self)@.at(now),
    {
        if !self.deadline_is_due(now) {
            return false;
        }
        match &mut self.operation {
            Operation::Execute { execution, .. } => execution.expire_before_start(
                "execution did not start within 5 seconds".to_owned(),
            ),
            _ => false,
        }
    }

    pub fn execution_has_not_handed_off_form(&self) -> (result: bool)
        ensures
            result == self@.not_begun(),
    {
        match &self.operation {
            Operation::Execute { execution, .. } => !execution.has_handed_off_form(),
            _ => false,
        }
    }

    pub fn execution_has_outcome(&self) -> (result: bool)
        ensures
            result == (self@.operation.execution_outcome() is Some),
    {
        match &self.operation {
            Operation::Execute { execution, .. } => execution.outcome().is_some(),
            _ => false,
        }
    }

    /// Lets a requested cancellation take effect on an execution that has not begun.
    pub fn finish_cancel_before_start(&mut self) -> (cancelled: bool)
        requires
            old(self).well_formed(),
        ensures
            final(self).well_formed(),
            cancelled == old(self)@.cancels(),
            final(self)@ == if cancelled {
                old(self)@.cancelled()
            } else {
                old(self)@
            },
    {
        match &mut self.operation {
            Operation::Execute { execution, .. } => {
                if !execution.has_handed_off_form() && execution.cancellation_requested() {
                    execution.cancel_before_start()
                } else {
                    false
                }
            },
            _ => false,
        }
    }

    /// Leaves a busy document alone for a while.
    pub fn defer_for_readiness(&mut self, now: u64)
        requires
            old(self).well_formed(),
            now + BUSY_RETRY_MAX <= u64::MAX,
        ensures
            final(self).well_formed(),
            final(self)@ == (JobView {
                native_target: old(self)@.native_target,
                ..old(self)@.deferred(now)
            }),
    {
        self.waiting_for_readiness = true;
        self.retry_at = Some(now + self.retry_delay);
        self.retry_delay =
        if 2 * self.retry_delay < BUSY_RETRY_MAX {
            2 * self.retry_delay
        } else {
            BUSY_RETRY_MAX
        };
    }
}

impl JobView {
    /// A cancellation was requested before the execution began.
    pub open spec fn cancels(self) -> bool {
        self.operation.execution() matches Some(execution) && execution.cancel_requested
            && execution.phase is BeginUndoGroup && !execution.form_handed_off
    }

    /// After an execution that has not begun was cancelled.
    pub open spec fn cancelled(self) -> JobView {
        JobView {
            operation: self.operation.with_execution(
                (ExecView {
                    cancel_requested: true,
                    ..self.operation.execution()->0.ended(OutcomeView::Cancelled)
                }),
            ),
            ..self
        }
    }
}

} // verus!
