//! Actions for the native side, each with someone who waits for its result.
use std::collections::VecDeque;

use vstd::prelude::*;

use crate::documents::NativeDocumentKey;
use crate::native::{
    ActionResultView, NativeActionKind, NativeActionResult, NativeActionResultKind,
};
use crate::scheduler::error;
pub use crate::scheduler::error::NativeFailure;
use crate::scheduler::error::NativeFailureView;
use crate::text;
use crate::text::{push_decimal, push_signed_decimal};

verus! {

/// Why an action failed.
#[derive(Debug, PartialEq, Eq)]
pub enum Error {
    StateUnavailable,
    ScheduleFailed(i32),
    Stopped,
    PluginStopping,
    DocumentGone,
    DocumentChanged,
    Unnamed,
    ReadOnly,
    Dirty,
    OpenFailed(NativeFailure),
    LockFailed(NativeFailure),
    SaveFailed(NativeFailure),
    CloseFailed(NativeFailure),
    UnknownResult(u8),
}

#[verifier::ext_equal]
pub enum ErrorView {
    StateUnavailable,
    ScheduleFailed(i32),
    Stopped,
    PluginStopping,
    DocumentGone,
    DocumentChanged,
    Unnamed,
    ReadOnly,
    Dirty,
    OpenFailed(NativeFailureView),
    LockFailed(NativeFailureView),
    SaveFailed(NativeFailureView),
    CloseFailed(NativeFailureView),
    UnknownResult(u8),
}

/// What the native side is asked to do, and for which request.
#[derive(Debug, PartialEq, Eq)]
pub struct NativeAction {
    pub request_id: u64,
    pub kind: NativeActionKind,
    pub document_token: usize,
    pub database_token: usize,
    pub path: String,
    pub discard: bool,
}

#[verifier::ext_equal]
pub struct ActionView {
    pub request_id: u64,
    pub kind: NativeActionKind,
    pub document_token: usize,
    pub database_token: usize,
    pub path: Seq<char>,
    pub discard: bool,
}

/// The actions that were not taken yet, and the requests that wait for a result.
pub struct ActionQueue {
    pending: VecDeque<NativeAction>,
    waiting: Vec<u64>,
    next_request_id: u64,
}

#[verifier::ext_equal]
pub struct QueueView {
    pub pending: Seq<ActionView>,
    pub waiting: Seq<u64>,
    pub next_request_id: u64,
}

impl View for Error {
    type V = ErrorView;

    open spec fn view(&self) -> ErrorView {
        match self {
            Error::StateUnavailable => ErrorView::StateUnavailable,
            Error::ScheduleFailed(status) => ErrorView::ScheduleFailed(*status),
            Error::Stopped => ErrorView::Stopped,
            Error::PluginStopping => ErrorView::PluginStopping,
            Error::DocumentGone => ErrorView::DocumentGone,
            Error::DocumentChanged => ErrorView::DocumentChanged,
            Error::Unnamed => ErrorView::Unnamed,
            Error::ReadOnly => ErrorView::ReadOnly,
            Error::Dirty => ErrorView::Dirty,
            Error::OpenFailed(failure) => ErrorView::OpenFailed(failure@),
            Error::LockFailed(failure) => ErrorView::LockFailed(failure@),
            Error::SaveFailed(failure) => ErrorView::SaveFailed(failure@),
            Error::CloseFailed(failure) => ErrorView::CloseFailed(failure@),
            Error::UnknownResult(kind) => ErrorView::UnknownResult(*kind),
        }
    }
}

impl View for NativeAction {
    type V = ActionView;

    open spec fn view(&self) -> ActionView {
        ActionView {
            request_id: self.request_id,
            kind: self.kind,
            document_token: self.document_token,
            database_token: self.database_token,
            path: self.path@,
            discard: self.discard,
        }
    }
}

pub open spec fn action_views(actions: Seq<NativeAction>) -> Seq<ActionView> {
    actions.map_values(|action: NativeAction| action@)
}

impl View for ActionQueue {
    type V = QueueView;

    closed spec fn view(&self) -> QueueView {
        QueueView {
            pending: action_views(self.pending@),
            waiting: self.waiting@,
            next_request_id: self.next_request_id,
        }
    }
}

impl ErrorView {
    /// What the user is told.
    pub open spec fn message(self) -> Seq<char> {
        match self {
            ErrorView::StateUnavailable => "native action state is unavailable"@,
            ErrorView::ScheduleFailed(status) => {
                "AutoCAD could not schedule the operation (status "@ + text::signed_decimal(
                    status as int,
                ) + ")"@
            },
            ErrorView::Stopped => "the native operation stopped before completion"@,
            ErrorView::PluginStopping => "the acadctl plugin is stopping"@,
            ErrorView::DocumentGone => "The document is no longer open"@,
            ErrorView::DocumentChanged => "The document changed before AutoCAD could perform the operation"@,
            ErrorView::Unnamed => "The document has no file name"@,
            ErrorView::ReadOnly => "The document is read-only"@,
            ErrorView::Dirty => "The document has unsaved changes"@,
            ErrorView::OpenFailed(failure) => failure.in_context("Could not open the drawing"@),
            ErrorView::LockFailed(failure) => failure.in_context("Could not lock the document"@),
            ErrorView::SaveFailed(failure) => failure.in_context("Could not save the document"@),
            ErrorView::CloseFailed(failure) => failure.in_context("Could not close the document"@),
            ErrorView::UnknownResult(kind) => {
                "AutoCAD returned an unknown native result ("@ + text::decimal(kind as nat) + ")"@
            },
        }
    }
}

impl Error {
    /// What the user is told.
    pub fn message(&self) -> (message: String)
        ensures
            message@ == self@.message(),
    {
        match self {
            Error::StateUnavailable => "native action state is unavailable".to_owned(),
            Error::ScheduleFailed(status) => {
                let mut message = "AutoCAD could not schedule the operation (status ".to_owned();
                push_signed_decimal(&mut message, *status as i64);
                message.push_str(")");
                message
            },
            Error::Stopped => "the native operation stopped before completion".to_owned(),
            Error::PluginStopping => "the acadctl plugin is stopping".to_owned(),
            Error::DocumentGone => "The document is no longer open".to_owned(),
            Error::DocumentChanged => "The document changed before AutoCAD could perform the operation".to_owned(),
            Error::Unnamed => "The document has no file name".to_owned(),
            Error::ReadOnly => "The document is read-only".to_owned(),
            Error::Dirty => "The document has unsaved changes".to_owned(),
            Error::OpenFailed(failure) => failure.in_context("Could not open the drawing"),
            Error::LockFailed(failure) => failure.in_context("Could not lock the document"),
            Error::SaveFailed(failure) => failure.in_context("Could not save the document"),
            Error::CloseFailed(failure) => failure.in_context("Could not close the document"),
            Error::UnknownResult(kind) => {
                let mut message = "AutoCAD returned an unknown native result (".to_owned();
                push_decimal(&mut message, *kind as u64);
                message.push_str(")");
                message
            },
        }
    }
}

/// Nothing to do.
pub open spec fn no_action() -> ActionView {
    ActionView {
        request_id: 0,
        kind: NativeActionKind::Idle,
        document_token: 0,
        database_token: 0,
        path: Seq::empty(),
        discard: false,
    }
}

/// The list without one of its values.
pub open spec fn without(list: Seq<u64>, value: u64) -> Seq<u64>
    decreases list.len(),
{
    if list.len() == 0 {
        Seq::empty()
    } else if list.last() == value {
        without(list.drop_last(), value)
    } else {
        without(list.drop_last(), value).push(list.last())
    }
}

/// The actions that do not belong to a request.
pub open spec fn not_for(actions: Seq<ActionView>, request_id: u64) -> Seq<ActionView>
    decreases actions.len(),
{
    if actions.len() == 0 {
        Seq::empty()
    } else if actions.last().request_id == request_id {
        not_for(actions.drop_last(), request_id)
    } else {
        not_for(actions.drop_last(), request_id).push(actions.last())
    }
}

impl QueueView {
    /// After an action was handed in.
    pub open spec fn dispatched(self, action: ActionView) -> QueueView {
        QueueView {
            pending: self.pending.push(ActionView { request_id: self.next_request_id, ..action }),
            waiting: if self.waiting.contains(self.next_request_id) {
                self.waiting
            } else {
                self.waiting.push(self.next_request_id)
            },
            next_request_id: if self.next_request_id == u64::MAX {
                0
            } else {
                (self.next_request_id + 1) as u64
            },
        }
    }

    /// After a request was taken back.
    pub open spec fn withdrawn(self, request_id: u64) -> QueueView {
        QueueView {
            pending: not_for(self.pending, request_id),
            waiting: without(self.waiting, request_id),
            ..self
        }
    }
}

/// The error that a native result stands for.
pub open spec fn native_error(result: ActionResultView) -> Option<ErrorView> {
    let failure = NativeFailureView { status: result.native_status, detail: result.native_detail };
    match result.kind {
        NativeActionResultKind::Success => None,
        NativeActionResultKind::DocumentGone => Some(ErrorView::DocumentGone),
        NativeActionResultKind::DocumentChanged => Some(ErrorView::DocumentChanged),
        NativeActionResultKind::Unnamed => Some(ErrorView::Unnamed),
        NativeActionResultKind::ReadOnly => Some(ErrorView::ReadOnly),
        NativeActionResultKind::Dirty => Some(ErrorView::Dirty),
        NativeActionResultKind::OpenFailed => Some(ErrorView::OpenFailed(failure)),
        NativeActionResultKind::LockFailed => Some(ErrorView::LockFailed(failure)),
        NativeActionResultKind::SaveFailed => Some(ErrorView::SaveFailed(failure)),
        NativeActionResultKind::CloseFailed => Some(ErrorView::CloseFailed(failure)),
        _ => Some(ErrorView::UnknownResult(result.kind.number())),
    }
}

/// A native result is an error exactly where it is no success: the error that the native
/// side reported, with its status and its detail. A result that this queue does not know is
/// told by its number.
pub proof fn law_native_results_are_told(result: ActionResultView)
    ensures
        ({
            let told = native_error(result);
            &&& told is None <==> result.kind is Success
            &&& told == Some(ErrorView::DocumentGone) <==> result.kind is DocumentGone
            &&& told == Some(ErrorView::DocumentChanged) <==> result.kind is DocumentChanged
            &&& told == Some(ErrorView::Unnamed) <==> result.kind is Unnamed
            &&& told == Some(ErrorView::ReadOnly) <==> result.kind is ReadOnly
            &&& told == Some(ErrorView::Dirty) <==> result.kind is Dirty
            &&& result.kind is OpenFailed <==> told is Some && told->0 is OpenFailed
            &&& result.kind is LockFailed <==> told is Some && told->0 is LockFailed
            &&& result.kind is SaveFailed <==> told is Some && told->0 is SaveFailed
            &&& result.kind is CloseFailed <==> told is Some && told->0 is CloseFailed
            &&& result.kind is OpenFailed ==> told->0->OpenFailed_0.status == result.native_status
                && told->0->OpenFailed_0.detail == result.native_detail
            &&& result.kind is LockFailed ==> told->0->LockFailed_0.status == result.native_status
                && told->0->LockFailed_0.detail == result.native_detail
            &&& result.kind is SaveFailed ==> told->0->SaveFailed_0.status == result.native_status
                && told->0->SaveFailed_0.detail == result.native_detail
            &&& result.kind is CloseFailed ==> told->0->CloseFailed_0.status
                == result.native_status && told->0->CloseFailed_0.detail == result.native_detail
            &&& result.kind matches NativeActionResultKind::Other(number) ==> told == Some(
                ErrorView::UnknownResult(number),
            )
        }),
{
}

/// What a failure is told as names what was tried, and explains it.
pub proof fn law_failed_work_is_named(failure: NativeFailureView)
    ensures
        "Could not open the drawing"@.is_prefix_of(ErrorView::OpenFailed(failure).message()),
        "Could not lock the document"@.is_prefix_of(ErrorView::LockFailed(failure).message()),
        "Could not save the document"@.is_prefix_of(ErrorView::SaveFailed(failure).message()),
        "Could not close the document"@.is_prefix_of(ErrorView::CloseFailed(failure).message()),
{
    error::law_native_failure_is_explained(failure, "Could not open the drawing"@);
    error::law_native_failure_is_explained(failure, "Could not lock the document"@);
    error::law_native_failure_is_explained(failure, "Could not save the document"@);
    error::law_native_failure_is_explained(failure, "Could not close the document"@);
}

/// The error that a native result stands for.
pub fn interpret(result: NativeActionResult) -> (interpreted: Result<(), Error>)
    ensures
        match interpreted {
            Ok(_) => native_error(result@) is None,
            Err(error) => native_error(result@) == Some(error@),
        },
{
    let kind = result.kind;
    let failure = NativeFailure { status: result.native_status, detail: result.native_detail };
    match kind {
        NativeActionResultKind::Success => Ok(()),
        NativeActionResultKind::DocumentGone => Err(Error::DocumentGone),
        NativeActionResultKind::DocumentChanged => Err(Error::DocumentChanged),
        NativeActionResultKind::Unnamed => Err(Error::Unnamed),
        NativeActionResultKind::ReadOnly => Err(Error::ReadOnly),
        NativeActionResultKind::Dirty => Err(Error::Dirty),
        NativeActionResultKind::OpenFailed => Err(Error::OpenFailed(failure)),
        NativeActionResultKind::LockFailed => Err(Error::LockFailed(failure)),
        NativeActionResultKind::SaveFailed => Err(Error::SaveFailed(failure)),
        NativeActionResultKind::CloseFailed => Err(Error::CloseFailed(failure)),
        _ => Err(Error::UnknownResult(kind.code())),
    }
}

fn empty_action() -> (action: NativeAction)
    ensures
        action@ == no_action(),
{
    NativeAction {
        request_id: 0,
        kind: NativeActionKind::Idle,
        document_token: 0,
        database_token: 0,
        path: String::new(),
        discard: false,
    }
}

impl ActionQueue {
    pub fn new() -> (queue: ActionQueue)
        ensures
            queue@ == (QueueView {
                pending: Seq::empty(),
                waiting: Seq::empty(),
                next_request_id: 1,
            }),
    {
        let queue = ActionQueue {
            pending: VecDeque::new(),
            waiting: Vec::new(),
            next_request_id: 1,
        };
        assert(queue@.pending =~= Seq::<ActionView>::empty());
        queue
    }

    fn waits(&self, request_id: u64) -> (result: bool)
        ensures
            result == self@.waiting.contains(request_id),
    {
        let mut index: usize = 0;
        while index < self.waiting.len()
            invariant
                index <= self.waiting@.len(),
                forall|i: int| 0 <= i < index ==> self.waiting@[i] != request_id,
            decreases self.waiting@.len() - index,
        {
            if self.waiting[index] == request_id {
                assert(self.waiting@[index as int] == request_id);
                return true;
            }
            index = index + 1;
        }
        false
    }

    fn stop_waiting(&mut self, request_id: u64)
        ensures
            final(self)@ == (QueueView {
                waiting: without(old(self)@.waiting, request_id),
                ..old(self)@
            }),
    {
        let ghost before = self@.waiting;
        let mut rest: Vec<u64> = Vec::new();
        let mut index: usize = 0;
        assert(before.take(0) =~= Seq::<u64>::empty());
        while index < self.waiting.len()
            invariant
                before == self.waiting@,
                index <= before.len(),
                rest@ == without(before.take(index as int), request_id),
            decreases before.len() - index,
        {
            let id: u64 = self.waiting[index];
            assert(before.take(index + 1).drop_last() =~= before.take(index as int));
            if id != request_id {
                rest.push(id);
            }
            index = index + 1;
        }
        assert(before.take(index as int) =~= before);
        self.waiting = rest;
    }
}

/// Hands an action in.
fn dispatch(queue: &mut ActionQueue, action: NativeAction) -> (request_id: u64)
    ensures
        request_id == old(queue)@.next_request_id,
        final(queue)@ == old(queue)@.dispatched(action@),
{
    let ghost before = queue@;
    let ghost given = queue.pending@;
    let mut action = action;
    let request_id: u64 = queue.next_request_id;
    queue.next_request_id =
    if request_id == u64::MAX {
        0
    } else {
        request_id + 1
    };
    action.request_id = request_id;
    if !queue.waits(request_id) {
        queue.waiting.push(request_id);
    }
    queue.pending.push_back(action);
    proof {
        assert(action_views(queue.pending@) =~= action_views(given).push(action@));
    }
    request_id
}

/// Asks for a file to be opened.
pub fn open(queue: &mut ActionQueue, path: String) -> (request_id: u64)
    ensures
        request_id == old(queue)@.next_request_id,
        final(queue)@ == old(queue)@.dispatched(
            ActionView { kind: NativeActionKind::Open, path: path@, ..no_action() },
        ),
{
    dispatch(queue, NativeAction { kind: NativeActionKind::Open, path, ..empty_action() })
}

/// Asks for a document to be saved.
pub fn save(queue: &mut ActionQueue, target: NativeDocumentKey) -> (request_id: u64)
    ensures
        request_id == old(queue)@.next_request_id,
        final(queue)@ == old(queue)@.dispatched(
            ActionView {
                kind: NativeActionKind::Save,
                document_token: target.document_token,
                database_token: target.database_token,
                ..no_action()
            },
        ),
{
    dispatch(
        queue,
        NativeAction {
            kind: NativeActionKind::Save,
            document_token: target.document_token,
            database_token: target.database_token,
            ..empty_action()
        },
    )
}

/// Asks for a document to be closed.
pub fn close(queue: &mut ActionQueue, target: NativeDocumentKey, discard: bool) -> (request_id: u64)
    ensures
        request_id == old(queue)@.next_request_id,
        final(queue)@ == old(queue)@.dispatched(
            ActionView {
                kind: NativeActionKind::Close,
                document_token: target.document_token,
                database_token: target.database_token,
                discard,
                ..no_action()
            },
        ),
{
    dispatch(
        queue,
        NativeAction {
            kind: NativeActionKind::Close,
            document_token: target.document_token,
            database_token: target.database_token,
            discard,
            ..empty_action()
        },
    )
}

/// Gives the native side the first action that was not taken yet.
pub fn take(queue: &mut ActionQueue) -> (action: NativeAction)
    ensures
        old(queue)@.pending.len() == 0 ==> action@ == no_action() && final(queue)@ == old(queue)@,
        old(queue)@.pending.len() > 0 ==> action@ == old(queue)@.pending[0] && final(queue)@ == (
        QueueView { pending: old(queue)@.pending.skip(1), ..old(queue)@ }),
{
    let ghost before = queue@;
    let ghost given = queue.pending@;
    match queue.pending.pop_front() {
        Some(action) => {
            proof {
                assert(before.pending[0] == given[0]@);
                assert(queue@.pending =~= before.pending.skip(1));
            }
            action
        },
        None => empty_action(),
    }
}

/// Takes the result of an action, and says what whoever waits for it is told.
pub fn complete(queue: &mut ActionQueue, request_id: u64, result: NativeActionResult) -> (told:
    Option<Result<(), Error>>)
    ensures
        told is Some <==> old(queue)@.waiting.contains(request_id),
        told matches Some(told) ==> match told {
            Ok(_) => native_error(result@) is None,
            Err(error) => native_error(result@) == Some(error@),
        },
        final(queue)@ == if old(queue)@.waiting.contains(request_id) {
            QueueView { waiting: without(old(queue)@.waiting, request_id), ..old(queue)@ }
        } else {
            old(queue)@
        },
{
    if queue.waits(request_id) {
        queue.stop_waiting(request_id);
        Some(interpret(result))
    } else {
        None
    }
}

/// What those who wait are told, each with its request.
pub open spec fn answers_view(told: Seq<(u64, Result<(), Error>)>) -> Seq<
    (u64, Result<(), ErrorView>),
> {
    told.map_values(
        |answer: (u64, Result<(), Error>)|
            (
                answer.0,
                match answer.1 {
                    Ok(_) => Ok::<(), ErrorView>(()),
                    Err(error) => Err(error@),
                },
            ),
    )
}

/// The same error for each of some requests.
pub open spec fn all_told(requests: Seq<u64>, error: ErrorView) -> Seq<
    (u64, Result<(), ErrorView>),
> {
    requests.map_values(|request_id: u64| (request_id, Err::<(), ErrorView>(error)))
}

/// Drops every action, and says what all who wait are told: that the plugin is stopping.
pub fn cancel_all(queue: &mut ActionQueue) -> (told: Vec<(u64, Result<(), Error>)>)
    ensures
        answers_view(told@) == all_told(old(queue)@.waiting, ErrorView::PluginStopping),
        final(queue)@ == (QueueView {
            pending: Seq::empty(),
            waiting: Seq::empty(),
            ..old(queue)@
        }),
{
    queue.pending.clear();
    let mut waiting: Vec<u64> = Vec::new();
    std::mem::swap(&mut waiting, &mut queue.waiting);
    assert(queue@.pending =~= Seq::<ActionView>::empty());
    let mut told: Vec<(u64, Result<(), Error>)> = Vec::new();
    let mut index: usize = 0;
    while index < waiting.len()
        invariant
            index <= waiting@.len(),
            told@.len() == index,
            forall|i: int|
                0 <= i < index ==> (#[trigger] told@[i]).0 == waiting@[i] && (
                told@[i].1 matches Err(error) && error@ is PluginStopping),
        decreases waiting@.len() - index,
    {
        told.push((waiting[index], Err(Error::PluginStopping)));
        index = index + 1;
    }
    assert(answers_view(told@) =~= all_told(waiting@, ErrorView::PluginStopping));
    told
}

/// Takes the status with which the native side was woken for a request. Where it could
/// not be woken, the request is taken back, and whoever made it is told.
pub fn woken(queue: &mut ActionQueue, request_id: u64, status: i32) -> (told: Result<(), Error>)
    ensures
        match told {
            Ok(_) => status == 0 && final(queue)@ == old(queue)@,
            Err(error) => {
                &&& status != 0
                &&& error@ == ErrorView::ScheduleFailed(status)
                &&& final(queue)@ == old(queue)@.withdrawn(request_id)
            },
        },
{
    if status != 0 {
        cancel(queue, request_id);
        return Err(Error::ScheduleFailed(status));
    }
    Ok(())
}

/// Takes a request back.
pub fn cancel(queue: &mut ActionQueue, request_id: u64)
    ensures
        final(queue)@ == old(queue)@.withdrawn(request_id),
{
    let ghost before = queue@;
    let ghost given = queue.pending@;
    let ghost actions = before.pending;
    let mut source: VecDeque<NativeAction> = VecDeque::new();
    std::mem::swap(&mut source, &mut queue.pending);
    let mut kept: VecDeque<NativeAction> = VecDeque::new();
    let ghost mut done: int = 0;
    assert(actions.take(0) =~= Seq::<ActionView>::empty());
    assert(action_views(kept@) =~= Seq::<ActionView>::empty());
    while source.len() > 0
        invariant
            0 <= done <= given.len(),
            actions == action_views(given),
            source@ == given.skip(done),
            action_views(kept@) == not_for(actions.take(done), request_id),
        decreases source@.len(),
    {
        let ghost upto = actions.take(done + 1);
        let ghost kept_before = kept@;
        if let Some(action) = source.pop_front() {
            proof {
                assert(action == given[done]);
                assert(upto.drop_last() =~= actions.take(done));
                assert(source@ =~= given.skip(done + 1));
            }
            if action.request_id != request_id {
                kept.push_back(action);
                assert(action_views(kept@) =~= action_views(kept_before).push(action@));
            }
            proof {
                done = done + 1;
            }
        }
    }
    assert(actions.take(done) =~= actions);
    queue.pending = kept;
    queue.stop_waiting(request_id);
}

/// What was handed in is what the native side gets, and its result goes to whoever handed
/// it in: from an empty queue, the action comes out under the request's identifier.
pub proof fn law_action_comes_out(queue: QueueView, action: ActionView)
    requires
        queue.pending.len() == 0,
    ensures
        queue.dispatched(action).pending[0] == (ActionView {
            request_id: queue.next_request_id,
            ..action
        }),
        queue.dispatched(action).waiting.contains(queue.next_request_id),
{
    let after = queue.dispatched(action);
    if !queue.waiting.contains(queue.next_request_id) {
        assert(after.waiting[queue.waiting.len() as int] == queue.next_request_id);
    }
}

/// When everything is cancelled, each request that waited is told that the plugin is
/// stopping, whether its action was taken or not, and no other request is.
pub proof fn law_cancelling_everything_tells_all(queue: QueueView, request_id: u64)
    ensures
        queue.waiting.contains(request_id) <==> all_told(
            queue.waiting,
            ErrorView::PluginStopping,
        ).contains((request_id, Err::<(), ErrorView>(ErrorView::PluginStopping))),
        all_told(queue.waiting, ErrorView::PluginStopping).len() == queue.waiting.len(),
{
    let told = all_told(queue.waiting, ErrorView::PluginStopping);
    let answer = (request_id, Err::<(), ErrorView>(ErrorView::PluginStopping));
    if queue.waiting.contains(request_id) {
        let place = choose|i: int| 0 <= i < queue.waiting.len() && queue.waiting[i] == request_id;
        assert(told[place] == answer);
    }
    if told.contains(answer) {
        let place = choose|i: int| 0 <= i < told.len() && told[i] == answer;
        assert(queue.waiting[place] == request_id);
    }
}

/// A request that was taken back leaves nothing behind: no action of it is taken, and no
/// result reaches it.
pub proof fn law_cancelled_request_is_gone(queue: QueueView, request_id: u64)
    ensures
        !without(queue.waiting, request_id).contains(request_id),
        forall|i: int|
            0 <= i < not_for(queue.pending, request_id).len() ==> (#[trigger] not_for(
                queue.pending,
                request_id,
            )[i]).request_id != request_id,
{
    lemma_without(queue.waiting, request_id);
    lemma_not_for(queue.pending, request_id);
}

proof fn lemma_without(list: Seq<u64>, value: u64)
    ensures
        forall|i: int|
            0 <= i < without(list, value).len() ==> #[trigger] without(list, value)[i] != value,
    decreases list.len(),
{
    if list.len() > 0 {
        let rest = without(list.drop_last(), value);
        lemma_without(list.drop_last(), value);
        assert forall|i: int| 0 <= i < without(list, value).len() implies #[trigger] without(
            list,
            value,
        )[i] != value by {
            if i < rest.len() {
                assert(without(list, value)[i] == rest[i]);
            }
        }
    }
}

proof fn lemma_not_for(actions: Seq<ActionView>, request_id: u64)
    ensures
        forall|i: int|
            0 <= i < not_for(actions, request_id).len() ==> (#[trigger] not_for(
                actions,
                request_id,
            )[i]).request_id != request_id,
    decreases actions.len(),
{
    if actions.len() > 0 {
        lemma_not_for(actions.drop_last(), request_id);
    }
}

/// An action that is handed in comes behind those that were not taken yet, as it is, and
/// its request waits with the others; the next request gets another identifier.
pub proof fn law_actions_keep_their_order(queue: QueueView, action: ActionView, other: u64)
    ensures
        ({
            let after = queue.dispatched(action);
            let last = after.pending.last();
            &&& after.pending == queue.pending.push(last)
            &&& last.request_id == queue.next_request_id
            &&& last.kind == action.kind
            &&& last.document_token == action.document_token
            &&& last.database_token == action.database_token
            &&& last.path == action.path
            &&& last.discard == action.discard
            &&& after.waiting.contains(other) <==> queue.waiting.contains(other) || other
                == queue.next_request_id
            &&& after.next_request_id != queue.next_request_id
        }),
{
    let after = queue.dispatched(action);
    if !queue.waiting.contains(queue.next_request_id) {
        let count = queue.waiting.len() as int;
        assert(after.waiting[count] == queue.next_request_id);
        if queue.waiting.contains(other) {
            let place = choose|i: int| 0 <= i < queue.waiting.len() && queue.waiting[i] == other;
            assert(after.waiting[place] == other);
        }
        if after.waiting.contains(other) {
            let place = choose|i: int| 0 <= i < after.waiting.len() && after.waiting[i] == other;
            if place < count {
                assert(queue.waiting[place] == other);
            }
        }
    }
}

/// Where nothing is to be done the native side is asked for nothing, on no document.
pub proof fn law_idle_asks_for_nothing()
    ensures
        no_action().kind is Idle,
        no_action().document_token == 0,
        no_action().database_token == 0,
        no_action().path.len() == 0,
        !no_action().discard,
{
}

/// A request that is taken back takes nothing of the others with it: their actions stay in
/// their order, and so does the wait for their results.
pub proof fn law_other_requests_stay(queue: QueueView, request_id: u64, other: u64)
    requires
        other != request_id,
    ensures
        queue.withdrawn(request_id).waiting.contains(other) <==> queue.waiting.contains(other),
        not_for(queue.withdrawn(request_id).pending, request_id) == queue.withdrawn(
            request_id,
        ).pending,
        forall|i: int|
            0 <= i < queue.pending.len() && (#[trigger] queue.pending[i]).request_id != request_id
                ==> queue.withdrawn(request_id).pending.contains(queue.pending[i]),
        queue.withdrawn(request_id).pending.len() <= queue.pending.len(),
        (forall|i: int|
            0 <= i < queue.pending.len() ==> (#[trigger] queue.pending[i]).request_id
                != request_id) ==> queue.withdrawn(request_id).pending == queue.pending,
{
    lemma_others_wait(queue.waiting, request_id, other);
    lemma_others_stay(queue.pending, request_id);
    lemma_not_for(queue.pending, request_id);
    lemma_others_stay(not_for(queue.pending, request_id), request_id);
}

proof fn lemma_others_wait(list: Seq<u64>, value: u64, other: u64)
    requires
        other != value,
    ensures
        without(list, value).contains(other) <==> list.contains(other),
    decreases list.len(),
{
    if list.len() > 0 {
        let front = list.drop_last();
        lemma_others_wait(front, value, other);
        let rest = without(front, value);
        let all = without(list, value);
        if list.contains(other) {
            let place = choose|i: int| 0 <= i < list.len() && list[i] == other;
            if place < front.len() {
                assert(front[place] == other);
                let there = choose|i: int| 0 <= i < rest.len() && rest[i] == other;
                assert(all[there] == other);
            } else {
                assert(all[rest.len() as int] == other);
            }
        }
        if all.contains(other) {
            let place = choose|i: int| 0 <= i < all.len() && all[i] == other;
            if place < rest.len() {
                assert(rest[place] == other);
                let there = choose|i: int| 0 <= i < front.len() && front[i] == other;
                assert(list[there] == other);
            } else {
                assert(list[front.len() as int] == other);
            }
        }
    }
}

proof fn lemma_others_stay(actions: Seq<ActionView>, request_id: u64)
    ensures
        forall|i: int|
            0 <= i < actions.len() && (#[trigger] actions[i]).request_id != request_id
                ==> not_for(actions, request_id).contains(actions[i]),
        not_for(actions, request_id).len() <= actions.len(),
        (forall|i: int|
            0 <= i < actions.len() ==> (#[trigger] actions[i]).request_id != request_id)
            ==> not_for(actions, request_id) == actions,
    decreases actions.len(),
{
    if actions.len() > 0 {
        let front = actions.drop_last();
        lemma_others_stay(front, request_id);
        let rest = not_for(front, request_id);
        let all = not_for(actions, request_id);
        assert forall|i: int| 0 <= i < actions.len() && (#[trigger] actions[i]).request_id
            != request_id implies all.contains(actions[i]) by {
            if i < front.len() {
                assert(front[i] == actions[i]);
                let there = choose|j: int| 0 <= j < rest.len() && rest[j] == front[i];
                assert(all[there] == actions[i]);
            } else {
                assert(all[rest.len() as int] == actions[i]);
            }
        }
        if forall|i: int|
            0 <= i < actions.len() ==> (#[trigger] actions[i]).request_id != request_id {
            assert forall|i: int| 0 <= i < front.len() implies (#[trigger] front[i]).request_id
                != request_id by {
                assert(front[i] == actions[i]);
            }
            assert(actions[actions.len() - 1].request_id != request_id);
            assert(all =~= actions);
        }
    }
}

} // verus!
