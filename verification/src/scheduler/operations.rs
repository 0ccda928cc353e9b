//! What each operation does, from the moment it is handed in to the answer.
use vstd::prelude::*;

use super::error::{ErrorView, HistoryDirection, NativeFailureView};
use super::job::{ActionView, OperationOutcomeView, OperationView};
use super::model::{SchedulerView, SubmissionView};
use super::reservations::ExecutionReservation;
use crate::documents::{Document, DocumentView, NativeDocumentKey};
use crate::exec::diagnostic;
use crate::exec::outcome::OutcomeView;
use crate::exec::state::ExecView;
use crate::naming;
use crate::native::{ActionResultView, NativeActionKind};
use crate::registry;
use crate::registry::EntryView;
use crate::text;

verus! {

/// The document with an identifier stands at a place of the list, and no other has it.
pub open spec fn listed_at(
    documents: Seq<EntryView<DocumentView>>,
    id: Seq<char>,
    place: int,
) -> bool {
    &&& 0 <= place < documents.len()
    &&& documents[place].document.id == id
    &&& forall|i: int|
        0 <= i < documents.len() && i != place ==> (#[trigger] documents[i]).document.id != id
}

/// No document has an identifier.
pub open spec fn unlisted(documents: Seq<EntryView<DocumentView>>, id: Seq<char>) -> bool {
    forall|i: int| 0 <= i < documents.len() ==> (#[trigger] documents[i]).document.id != id
}

/// Two paths lead to the same file: they are the same text, or differ in nothing but small
/// and capital letters where these are not told apart.
pub open spec fn same_file(left: Seq<char>, right: Seq<char>, ignore_case: bool) -> bool {
    &&& left.len() == right.len()
    &&& forall|i: int|
        0 <= i < left.len() ==> (#[trigger] left[i] == right[i] || (ignore_case && same_letter(
            left[i],
            right[i],
        )))
}

/// A small letter and its capital, in either order.
pub open spec fn same_letter(left: char, right: char) -> bool {
    ||| 'a' <= left <= 'z' && right as int == left as int - 32
    ||| 'a' <= right <= 'z' && left as int == right as int - 32
}

/// The document at a place of the list is stored at a path.
pub open spec fn stored_at(
    documents: Seq<EntryView<DocumentView>>,
    path: Seq<char>,
    ignore_case: bool,
    place: int,
) -> bool {
    &&& 0 <= place < documents.len()
    &&& documents[place].document.file_path matches Some(stored) && same_file(
        stored,
        path,
        ignore_case,
    )
}

/// Nothing is going on and nothing stands in the way.
pub open spec fn quiet(view: SchedulerView) -> bool {
    &&& view.active is None
    &&& view.pending.len() == 0
    &&& !view.wake_pending
    &&& !view.stopping
    &&& !view.quarantined
}

/// An operation is the next that the native side is given.
pub open spec fn next_is(view: SchedulerView, operation: OperationView) -> bool {
    &&& view.active is None
    &&& view.pending.len() > 0
    &&& view.pending[0].operation == operation
    &&& !view.pending[0].waiting_for_readiness
    &&& !view.stopping
    &&& !view.quarantined
}

/// The operation is answered without the native side: at once where nothing else is going
/// on, else when its turn comes.
pub open spec fn answered(
    view: SchedulerView,
    operation: OperationView,
    dwg: bool,
    now: u64,
    outcome: Result<OperationOutcomeView, ErrorView>,
) -> bool {
    &&& quiet(view) ==> view.submitted(operation, dwg) == (view, SubmissionView::Done(outcome))
    &&& next_is(view, operation) ==> {
        let (after, taken) = view.taken(now, dwg);
        &&& taken.action.kind is Idle
        &&& taken.settled is Some
        &&& taken.settled->0.job_id == view.pending[0].job_id
        &&& taken.settled->0.outcome == outcome
        &&& taken.settled->0.reservation == view.pending[0].reservation
        &&& after.active is None
        &&& after.pending == view.pending.skip(1)
        &&& after.documents == view.documents
    }
}

/// The operation needs the native side: it is queued, and when its turn comes the native
/// side is asked to do just that, on that document.
pub open spec fn asked(
    view: SchedulerView,
    operation: OperationView,
    dwg: bool,
    now: u64,
    kind: NativeActionKind,
    key: NativeDocumentKey,
    path: Seq<char>,
    discard: bool,
) -> bool {
    &&& quiet(view) ==> {
        let (after, submission) = view.submitted(operation, dwg);
        &&& submission == SubmissionView::Queued { job_id: view.next_job_id, should_wake: true }
        &&& after.pending.len() == 1
        &&& after.pending[0].job_id == view.next_job_id
        &&& next_is(after, operation)
    }
    &&& next_is(view, operation) ==> {
        let (after, taken) = view.taken(now, dwg);
        &&& taken.settled is None
        &&& taken.action == (ActionView {
            job_id: view.pending[0].job_id,
            kind,
            document_token: key.document_token,
            database_token: key.database_token,
            path,
            discard,
        })
        &&& after.active is Some
        &&& after.active->0.job_id == view.pending[0].job_id
        &&& after.active->0.operation == operation
        &&& key.document_token != 0 || key.database_token != 0 ==> after.active->0.native_target
            == Some(key)
        &&& after.pending == view.pending.skip(1)
    }
}

/// Whoever waits for the active job is told an outcome, and no job is active any more.
pub open spec fn told(
    view: SchedulerView,
    result: ActionResultView,
    quarantine: bool,
    now: u64,
    outcome: Result<OperationOutcomeView, ErrorView>,
) -> bool {
    let (after, settled) = view.completed(view.active->0.job_id, result, quarantine, now);
    &&& after.active is None
    &&& settled.len() > 0
    &&& settled[0].job_id == view.active->0.job_id
    &&& settled[0].outcome == outcome
    &&& settled[0].reservation == view.active->0.reservation
    &&& settled[0].output is Some <==> view.active->0.operation is Execute
    &&& settled[0].output is Some ==> settled[0].output->0.finished
}

/// The native side works on an operation.
pub open spec fn working_on(view: SchedulerView, operation: OperationView) -> bool {
    view.active is Some && view.active->0.operation == operation
}

pub proof fn lemma_listed(documents: Seq<EntryView<DocumentView>>, id: Seq<char>, place: int)
    requires
        listed_at(documents, id, place),
    ensures
        registry::with_id::<Document>(documents, id) == Some(documents[place]),
    decreases documents.len(),
{
    if place > 0 {
        assert(documents[0].document.id != id);
        let rest = documents.skip(1);
        assert(rest[place - 1] == documents[place]);
        assert forall|i: int| 0 <= i < rest.len() && i != place - 1 implies (
        #[trigger] rest[i]).document.id != id by {
            assert(rest[i] == documents[i + 1]);
        }
        lemma_listed(rest, id, place - 1);
    }
}

proof fn lemma_unlisted(documents: Seq<EntryView<DocumentView>>, id: Seq<char>)
    requires
        unlisted(documents, id),
    ensures
        registry::with_id::<Document>(documents, id) is None,
    decreases documents.len(),
{
    if documents.len() > 0 {
        assert(documents[0].document.id != id);
        let rest = documents.skip(1);
        assert forall|i: int| 0 <= i < rest.len() implies (#[trigger] rest[i]).document.id
            != id by {
            assert(rest[i] == documents[i + 1]);
        }
        lemma_unlisted(rest, id);
    }
}

/// Paths are compared letter for letter, but for small and capital letters where these are
/// not told apart.
pub proof fn law_paths_are_compared_by_letter(left: Seq<char>, right: Seq<char>, ignore_case: bool)
    ensures
        naming::same_path(left, right, ignore_case) <==> same_file(left, right, ignore_case),
{
    let upper_left = text::ascii_upper_text(left);
    let upper_right = text::ascii_upper_text(right);
    assert(upper_left.len() == left.len() && upper_right.len() == right.len());
    if naming::same_path(left, right, ignore_case) {
        assert forall|i: int| 0 <= i < left.len() implies (#[trigger] left[i] == right[i] || (
        ignore_case && same_letter(left[i], right[i]))) by {
            if ignore_case {
                assert(upper_left[i] == text::ascii_upper(left[i]));
                assert(upper_right[i] == text::ascii_upper(right[i]));
            }
        }
    }
    if same_file(left, right, ignore_case) {
        if ignore_case {
            assert forall|i: int| 0 <= i < left.len() implies upper_left[i] == upper_right[i] by {
                assert(left[i] == right[i] || same_letter(left[i], right[i]));
            }
            assert(upper_left =~= upper_right);
        } else {
            assert(left =~= right);
        }
    }
}

/// The document that is found by a path is one of the list that is stored there, and none
/// before it is.
proof fn lemma_stored(
    documents: Seq<EntryView<DocumentView>>,
    path: Seq<char>,
    ignore_case: bool,
) -> (place: int)
    ensures
        match registry::with_path::<Document>(documents, path, ignore_case) {
            Some(found) => stored_at(documents, path, ignore_case, place) && documents[place]
                == found,
            None => forall|i: int| !#[trigger] stored_at(documents, path, ignore_case, i),
        },
    decreases documents.len(),
{
    if documents.len() == 0 {
        0
    } else {
        let first = documents[0].document.file_path;
        if first is Some {
            law_paths_are_compared_by_letter(first->0, path, ignore_case);
        }
        if stored_at(documents, path, ignore_case, 0) {
            0
        } else {
            let rest = documents.skip(1);
            let place = lemma_stored(rest, path, ignore_case);
            if registry::with_path::<Document>(rest, path, ignore_case) is Some {
                assert(documents[place + 1] == rest[place]);
            } else {
                assert forall|i: int| !#[trigger] stored_at(documents, path, ignore_case, i) by {
                    if stored_at(documents, path, ignore_case, i) {
                        assert(rest[i - 1] == documents[i]);
                        assert(stored_at(rest, path, ignore_case, i - 1));
                    }
                }
            }
            place + 1
        }
    }
}

/// An operation that is handed in while others go on waits behind them, whatever it is,
/// as long as there is room.
pub proof fn law_busy_scheduler_queues(view: SchedulerView, operation: OperationView, dwg: bool)
    requires
        !view.stopping,
        !view.quarantined,
        view.active is Some || view.pending.len() > 0,
        view.pending.len() + (if view.active is Some {
            1int
        } else {
            0
        }) < 32,
    ensures
        ({
            let (after, submission) = view.submitted(operation, dwg);
            &&& submission is Queued
            &&& submission->job_id == view.next_job_id
            &&& submission->should_wake <==> view.active is None
                && !view.pending[0].waiting_for_readiness && !view.wake_pending
            &&& after.pending.len() == view.pending.len() + 1
            &&& after.pending.last().job_id == view.next_job_id
            &&& after.pending.last().operation == operation
            &&& !after.pending.last().waiting_for_readiness
            &&& after.active == view.active
            &&& after.documents == view.documents
            &&& after.next_job_id != view.next_job_id
        }),
{
}

/// A plugin that stops refuses every operation with that reason, and so does one whose
/// native state is in doubt; neither leaves a trace.
pub proof fn law_closed_scheduler_refuses(
    view: SchedulerView,
    operation: OperationView,
    execution: ExecView,
    dwg: bool,
)
    requires
        view.stopping || view.quarantined,
    ensures
        ({
            let reason = if view.stopping {
                ErrorView::PluginStopping
            } else {
                ErrorView::NativeMutationStateUnknown
            };
            &&& view.submitted(operation, dwg) == (view, SubmissionView::Done(Err(reason)))
            &&& view.refusal(execution) == Some(reason)
            &&& view.declined() == view
        }),
{
}

/// A drawing that is open already is not opened again: the document is the answer. For any
/// other path the native side is asked to open that very path.
pub proof fn law_open_asks_for_files_that_are_not_open(
    view: SchedulerView,
    path: Seq<char>,
    dwg: bool,
    now: u64,
)
    ensures
        ({
            let operation = OperationView::Open { path };
            ||| exists|place: int| #[trigger]
                stored_at(view.documents, path, view.ignore_case, place) && answered(
                    view,
                    operation,
                    dwg,
                    now,
                    Ok(OperationOutcomeView::Document(view.documents[place].document)),
                )
            ||| (forall|place: int| !#[trigger]
                stored_at(view.documents, path, view.ignore_case, place)) && asked(
                view,
                operation,
                dwg,
                now,
                NativeActionKind::Open,
                NativeDocumentKey { document_token: 0, database_token: 0 },
                path,
                false,
            )
        }),
{
    let place = lemma_stored(view.documents, path, view.ignore_case);
    if registry::with_path::<Document>(view.documents, path, view.ignore_case) is Some {
        assert(stored_at(view.documents, path, view.ignore_case, place));
    }
}

/// An open that the native side reports as done is answered with a document of the list
/// that is stored at the path that was asked for; only where none is, it was not published.
pub proof fn law_opened_document_is_the_answer(
    view: SchedulerView,
    path: Seq<char>,
    result: ActionResultView,
    quarantine: bool,
    now: u64,
)
    requires
        working_on(view, OperationView::Open { path }),
        result.kind is Success,
    ensures
        ({
            ||| exists|place: int| #[trigger]
                stored_at(view.documents, path, view.ignore_case, place) && told(
                    view,
                    result,
                    quarantine,
                    now,
                    Ok(OperationOutcomeView::Document(view.documents[place].document)),
                )
            ||| (forall|place: int| !#[trigger]
                stored_at(view.documents, path, view.ignore_case, place)) && told(
                view,
                result,
                quarantine,
                now,
                Err(ErrorView::OpenNotPublished),
            )
        }),
{
    let place = lemma_stored(view.documents, path, view.ignore_case);
    if registry::with_path::<Document>(view.documents, path, view.ignore_case) is Some {
        assert(stored_at(view.documents, path, view.ignore_case, place));
    }
}

/// A document is saved by the native side exactly where it can be written, has a file of
/// its own which is a drawing, and has changes. Without changes the document is the answer;
/// any other is refused with the first reason that holds.
pub proof fn law_save_asks_for_what_has_to_be_saved(
    view: SchedulerView,
    id: Seq<char>,
    place: int,
    dwg: bool,
    now: u64,
)
    requires
        listed_at(view.documents, id, place),
    ensures
        ({
            let operation = OperationView::Save { id };
            let document = view.documents[place].document;
            let named = document.file_path is Some;
            &&& document.read_only ==> answered(
                view,
                operation,
                dwg,
                now,
                Err(ErrorView::ReadOnly(id)),
            )
            &&& !document.read_only && !named ==> answered(
                view,
                operation,
                dwg,
                now,
                Err(ErrorView::Unnamed(id)),
            )
            &&& !document.read_only && named && !dwg ==> answered(
                view,
                operation,
                dwg,
                now,
                Err(ErrorView::NotDwg),
            )
            &&& !document.read_only && named && dwg && !document.modified ==> answered(
                view,
                operation,
                dwg,
                now,
                Ok(OperationOutcomeView::Document(document)),
            )
            &&& !document.read_only && named && dwg && document.modified ==> asked(
                view,
                operation,
                dwg,
                now,
                NativeActionKind::Save,
                view.documents[place].native_key,
                Seq::empty(),
                false,
            )
        }),
{
    lemma_listed(view.documents, id, place);
}

/// A save that the native side reports as done is answered with the document, unless that
/// still has changes.
pub proof fn law_saved_document_is_the_answer(
    view: SchedulerView,
    id: Seq<char>,
    place: int,
    result: ActionResultView,
    quarantine: bool,
    now: u64,
)
    requires
        working_on(view, OperationView::Save { id }),
        listed_at(view.documents, id, place),
        result.kind is Success,
    ensures
        view.documents[place].document.modified ==> told(
            view,
            result,
            quarantine,
            now,
            Err(ErrorView::SaveNotPublished),
        ),
        !view.documents[place].document.modified ==> told(
            view,
            result,
            quarantine,
            now,
            Ok(OperationOutcomeView::Document(view.documents[place].document)),
        ),
{
    lemma_listed(view.documents, id, place);
}

/// A close is refused exactly where the document has changes that are not to be discarded.
/// Else the native side is asked to close that document, with the flag that was given.
pub proof fn law_close_asks_unless_changes_would_be_lost(
    view: SchedulerView,
    id: Seq<char>,
    discard: bool,
    place: int,
    dwg: bool,
    now: u64,
)
    requires
        listed_at(view.documents, id, place),
    ensures
        ({
            let operation = OperationView::Close { id, discard };
            let modified = view.documents[place].document.modified;
            &&& modified && !discard ==> answered(
                view,
                operation,
                dwg,
                now,
                Err(ErrorView::Dirty(id)),
            )
            &&& !modified || discard ==> asked(
                view,
                operation,
                dwg,
                now,
                NativeActionKind::Close,
                view.documents[place].native_key,
                Seq::empty(),
                discard,
            )
        }),
{
    lemma_listed(view.documents, id, place);
}

/// A close that the native side reports as done succeeded exactly where the document is
/// gone from the list.
pub proof fn law_closed_document_is_gone(
    view: SchedulerView,
    id: Seq<char>,
    discard: bool,
    place: int,
    result: ActionResultView,
    quarantine: bool,
    now: u64,
)
    requires
        working_on(view, OperationView::Close { id, discard }),
        result.kind is Success,
    ensures
        unlisted(view.documents, id) ==> told(
            view,
            result,
            quarantine,
            now,
            Ok(OperationOutcomeView::Closed),
        ),
        listed_at(view.documents, id, place) ==> told(
            view,
            result,
            quarantine,
            now,
            Err(ErrorView::CloseNotPublished),
        ),
{
    if unlisted(view.documents, id) {
        lemma_unlisted(view.documents, id);
    }
    if listed_at(view.documents, id, place) {
        lemma_listed(view.documents, id, place);
    }
}

/// An undo or a redo of any open document, changed or not, needs the native side, which is
/// asked for the one that was meant, on that document.
pub proof fn law_history_always_asks(
    view: SchedulerView,
    id: Seq<char>,
    place: int,
    dwg: bool,
    now: u64,
)
    requires
        listed_at(view.documents, id, place),
    ensures
        asked(
            view,
            OperationView::History { id, direction: HistoryDirection::Undo },
            dwg,
            now,
            NativeActionKind::Undo,
            view.documents[place].native_key,
            Seq::empty(),
            false,
        ),
        asked(
            view,
            OperationView::History { id, direction: HistoryDirection::Redo },
            dwg,
            now,
            NativeActionKind::Redo,
            view.documents[place].native_key,
            Seq::empty(),
            false,
        ),
{
    lemma_listed(view.documents, id, place);
}

/// An undo or a redo that the native side reports as done is answered with the document, if
/// that is still the one that the native side was asked for.
pub proof fn law_document_of_the_step_is_the_answer(
    view: SchedulerView,
    id: Seq<char>,
    direction: HistoryDirection,
    key: NativeDocumentKey,
    place: int,
    result: ActionResultView,
    quarantine: bool,
    now: u64,
)
    requires
        working_on(view, OperationView::History { id, direction }),
        view.active->0.native_target == Some(key),
        result.kind is Success,
    ensures
        listed_at(view.documents, id, place) && view.documents[place].native_key == key ==> told(
            view,
            result,
            quarantine,
            now,
            Ok(OperationOutcomeView::Document(view.documents[place].document)),
        ),
        listed_at(view.documents, id, place) && view.documents[place].native_key != key ==> told(
            view,
            result,
            quarantine,
            now,
            Err(ErrorView::DocumentGenerationChanged),
        ),
        unlisted(view.documents, id) ==> told(
            view,
            result,
            quarantine,
            now,
            Err(ErrorView::DocumentGone),
        ),
{
    if unlisted(view.documents, id) {
        lemma_unlisted(view.documents, id);
    }
    if listed_at(view.documents, id, place) {
        lemma_listed(view.documents, id, place);
    }
}

/// An operation on a document that is not open is answered so, without the native side.
pub proof fn law_unlisted_document_is_not_found(
    view: SchedulerView,
    operation: OperationView,
    id: Seq<char>,
    dwg: bool,
    now: u64,
)
    requires
        unlisted(view.documents, id),
        ({
            ||| operation == OperationView::Save { id }
            ||| operation == OperationView::Close { id, discard: true }
            ||| operation == OperationView::Close { id, discard: false }
            ||| operation == OperationView::History { id, direction: HistoryDirection::Undo }
            ||| operation == OperationView::History { id, direction: HistoryDirection::Redo }
        }),
    ensures
        answered(view, operation, dwg, now, Err(ErrorView::DocumentNotFound(id))),
{
    lemma_unlisted(view.documents, id);
}

/// An execution waits behind what came before, with a deadline of five seconds for its
/// start. When its turn comes, the native side is asked to drive it, on its document.
pub proof fn law_execution_is_driven_on_its_document(
    view: SchedulerView,
    id: Seq<char>,
    execution: ExecView,
    reservation: ExecutionReservation,
    place: int,
    start: u64,
    now: u64,
    dwg: bool,
)
    requires
        listed_at(view.documents, id, place),
        execution.outcome is None,
        start + 5000 <= u64::MAX,
    ensures
        ({
            let (after, admission) = view.admitted(id, execution, reservation, start);
            &&& admission.settled is None
            &&& admission.job_id == view.next_job_id
            &&& after.pending.len() == view.pending.len() + 1
            &&& after.pending.last().job_id == view.next_job_id
            &&& after.pending.last().operation == (OperationView::Execute { id, execution })
            &&& after.pending.last().start_deadline == Some((start + 5000) as u64)
            &&& after.pending.last().reservation == Some(reservation)
            &&& admission.should_wake <==> view.active is None && !view.wake_pending
                && !view.stopping && !view.quarantined && (view.pending.len() > 0
                ==> !view.pending[0].waiting_for_readiness)
            &&& quiet(view) ==> admission.should_wake && next_is(
                after,
                OperationView::Execute { id, execution },
            )
        }),
        next_is(view, OperationView::Execute { id, execution }) && (
        view.pending[0].start_deadline matches Some(deadline) ==> now < deadline) ==> {
            let (after, taken) = view.taken(now, dwg);
            let key = view.documents[place].native_key;
            &&& taken.settled is None
            &&& taken.action.kind is QueueExecutionDriver
            &&& taken.action.job_id == view.pending[0].job_id
            &&& taken.action.document_token == key.document_token
            &&& taken.action.database_token == key.database_token
            &&& after.active is Some
            &&& after.active->0.job_id == view.pending[0].job_id
            &&& after.active->0.operation == (OperationView::Execute { id, execution })
            &&& key.document_token != 0 || key.database_token != 0
                ==> after.active->0.native_target == Some(key)
        },
{
    lemma_listed(view.documents, id, place);
}

/// An execution without a form needs no native side: it has its outcome at once where its
/// document is open, and is told that it is not open else.
pub proof fn law_empty_execution_is_settled_at_once(
    view: SchedulerView,
    id: Seq<char>,
    execution: ExecView,
    reservation: ExecutionReservation,
    place: int,
    now: u64,
)
    requires
        execution.outcome is Some,
        listed_at(view.documents, id, place) || unlisted(view.documents, id),
    ensures
        ({
            let (after, admission) = view.admitted(id, execution, reservation, now);
            &&& after.pending == view.pending
            &&& after.active == view.active
            &&& !admission.should_wake
            &&& admission.settled is Some
            &&& admission.settled->0.job_id == admission.job_id
            &&& admission.settled->0.reservation == Some(reservation)
            &&& admission.settled->0.outcome == if unlisted(view.documents, id) {
                Err::<OperationOutcomeView, ErrorView>(ErrorView::DocumentNotFound(id))
            } else {
                Ok(OperationOutcomeView::Execution(execution.outcome->0))
            }
        }),
{
    if unlisted(view.documents, id) {
        lemma_unlisted(view.documents, id);
    } else {
        lemma_listed(view.documents, id, place);
    }
}

/// An execution whose deadline has passed before it was begun is not given to the native
/// side: it ends as a failure that says so and that nothing was done.
pub proof fn law_late_execution_is_not_started(
    view: SchedulerView,
    id: Seq<char>,
    execution: ExecView,
    place: int,
    now: u64,
    dwg: bool,
)
    requires
        next_is(view, OperationView::Execute { id, execution }),
        listed_at(view.documents, id, place),
        execution.phase is BeginUndoGroup,
        !execution.form_handed_off,
        execution.outcome is None,
        !execution.cancel_requested,
        execution.unwind is None,
        view.pending[0].start_deadline matches Some(deadline) && now >= deadline,
    ensures
        ({
            let (after, taken) = view.taken(now, dwg);
            &&& taken.action.kind is Idle
            &&& after.active is None
            &&& taken.settled is Some
            &&& taken.settled->0.outcome matches Ok(
                OperationOutcomeView::Execution(OutcomeView::Failure(failure)),
            ) && failure.drawing_outcome is NotStarted && failure.message
                == "execution did not start within 5 seconds"@ && failure.form_index is None
                && failure.location is None
        }),
{
    lemma_listed(view.documents, id, place);
}

/// The outcome of an execution that the native side reports as done is what its client is
/// told, as it is; one without an outcome did not finish.
pub proof fn law_execution_outcome_is_the_answer(
    view: SchedulerView,
    id: Seq<char>,
    execution: ExecView,
    result: ActionResultView,
    quarantine: bool,
    now: u64,
)
    requires
        working_on(view, OperationView::Execute { id, execution }),
        result.kind is Success,
    ensures
        execution.outcome matches Some(outcome) ==> told(
            view,
            result,
            quarantine,
            now,
            Ok(OperationOutcomeView::Execution(outcome)),
        ),
        execution.outcome is None ==> told(
            view,
            result,
            quarantine,
            now,
            Err(ErrorView::ExecutionNotFinished),
        ),
{
}

/// What the native side reports as wrong with an operation that is no execution is what
/// whoever handed it in is told, with the native status, and with the native detail as far
/// as diagnostics go.
pub proof fn law_native_failure_is_told(
    view: SchedulerView,
    result: ActionResultView,
    quarantine: bool,
    now: u64,
)
    requires
        view.active is Some,
        !(view.active->0.operation is Execute),
        !(result.kind is Success),
    ensures
        ({
            let failure = NativeFailureView {
                status: result.native_status,
                detail: diagnostic::bounded_text(result.native_detail, false),
            };
            let operation = view.active->0.operation;
            let id = match operation {
                OperationView::Save { id } => id,
                OperationView::Close { id, .. } => id,
                OperationView::History { id, .. } => id,
                _ => Seq::empty(),
            };
            let told_error = |error: ErrorView|
                told(view, result, quarantine, now, Err::<OperationOutcomeView, ErrorView>(error));
            &&& exists|error: ErrorView| #[trigger] told_error(error)
            &&& result.kind is DocumentGone ==> told_error(ErrorView::DocumentGone)
            &&& result.kind is DocumentGenerationChanged ==> told_error(
                ErrorView::DocumentGenerationChanged,
            )
            &&& result.kind is Unnamed ==> told_error(ErrorView::Unnamed(id))
            &&& result.kind is ReadOnly ==> told_error(ErrorView::ReadOnly(id))
            &&& result.kind is Dirty ==> told_error(ErrorView::Dirty(id))
            &&& result.kind is OpenFailed ==> told_error(ErrorView::OpenFailed(failure))
            &&& result.kind is LockFailed ==> told_error(ErrorView::LockFailed(failure))
            &&& result.kind is SaveFailed ==> told_error(ErrorView::SaveFailed(failure))
            &&& result.kind is CloseFailed ==> told_error(ErrorView::CloseFailed(failure))
            &&& result.kind is HistoryFailed ==> (operation matches OperationView::History {
                direction,
                ..
            } ==> told_error(ErrorView::HistoryFailed { direction, failure }))
            &&& result.kind is NotQuiescent ==> told_error(ErrorView::NotQuiescent)
            &&& result.kind is UndoDisabled ==> told_error(ErrorView::UndoDisabled)
            &&& result.kind is DocumentContextFailed ==> told_error(
                ErrorView::DocumentContextFailed(failure),
            )
            &&& result.kind is DocumentContextRestoreFailed ==> told_error(
                ErrorView::DocumentContextRestoreFailed(failure),
            )
        }),
{
    let error = view.active->0.operation.native_error(
        super::model::bounded_result(result),
    )->0;
    assert(told(view, result, quarantine, now, Err::<OperationOutcomeView, ErrorView>(error)));
    let told_error = |error: ErrorView|
        told(view, result, quarantine, now, Err::<OperationOutcomeView, ErrorView>(error));
    assert(told_error(error));
}

} // verus!
