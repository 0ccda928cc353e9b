use acadctl_plugin::documents::NativeDocumentKey;
use acadctl_plugin::native::{NativeActionKind, NativeActionResult, NativeActionResultKind};
use acadctl_plugin::native_actions::{
    cancel, cancel_all, close, complete, interpret, open, save, take, woken, ActionQueue, Error,
    NativeFailure,
};

fn result(kind: NativeActionResultKind) -> NativeActionResult {
    NativeActionResult { kind, native_status: 0, native_detail: String::new() }
}

fn target() -> NativeDocumentKey {
    NativeDocumentKey { document_token: 42, database_token: 84 }
}

#[test]
fn native_actions_preserves_native_guard_outcomes_as_types() {
    assert_eq!(
        interpret(result(NativeActionResultKind::DocumentGone)),
        Err(Error::DocumentGone)
    );
    assert_eq!(
        interpret(result(NativeActionResultKind::DocumentChanged)),
        Err(Error::DocumentChanged)
    );
    assert_eq!(
        interpret(result(NativeActionResultKind::Unnamed)),
        Err(Error::Unnamed)
    );
    assert_eq!(
        interpret(result(NativeActionResultKind::ReadOnly)),
        Err(Error::ReadOnly)
    );
    assert_eq!(
        interpret(result(NativeActionResultKind::Dirty)),
        Err(Error::Dirty)
    );
}

#[test]
fn sends_actions_to_the_native_bridge_and_returns_the_result() {
    let mut queue = ActionQueue::new();
    let pending = open(&mut queue, "/tmp/house.dwg".into());

    let action = take(&mut queue);
    assert_eq!(action.kind, NativeActionKind::Open);
    assert_eq!(action.path, "/tmp/house.dwg");
    assert_eq!(action.request_id, pending);
    let told = complete(
        &mut queue,
        action.request_id,
        result(NativeActionResultKind::Success),
    );
    assert!(told.unwrap().is_ok());

    let pending = save(&mut queue, target());

    let action = take(&mut queue);
    assert_eq!(action.kind, NativeActionKind::Save);
    assert_eq!(action.document_token, 42);
    assert_eq!(action.database_token, 84);
    assert_eq!(action.request_id, pending);
    let told = complete(
        &mut queue,
        action.request_id,
        NativeActionResult {
            kind: NativeActionResultKind::SaveFailed,
            native_status: 42,
            native_detail: "save failed".into(),
        },
    );

    let error = told.unwrap().unwrap_err();
    assert_eq!(
        error,
        Error::SaveFailed(NativeFailure { status: 42, detail: "save failed".into() })
    );
    assert_eq!(error.message(), "Could not save the document: save failed");
}

#[test]
fn actions_come_out_in_order_and_then_none_is_left() {
    let mut queue = ActionQueue::new();
    assert_eq!(open(&mut queue, "/tmp/first.dwg".into()), 1);
    assert_eq!(close(&mut queue, target(), true), 2);
    assert_eq!(take(&mut queue).path, "/tmp/first.dwg");
    let second = take(&mut queue);
    assert_eq!(second.kind, NativeActionKind::Close);
    assert_eq!(second.request_id, 2);
    assert!(second.discard);
    let none = take(&mut queue);
    assert_eq!(none.kind, NativeActionKind::Idle);
    assert_eq!(none.request_id, 0);
}

#[test]
fn a_cancelled_request_is_neither_taken_nor_answered() {
    let mut queue = ActionQueue::new();
    let first = save(&mut queue, target());
    let second = open(&mut queue, "/tmp/house.dwg".into());
    cancel(&mut queue, first);
    assert_eq!(take(&mut queue).request_id, second);
    assert_eq!(
        complete(&mut queue, first, result(NativeActionResultKind::Success)),
        None
    );
    assert_eq!(
        complete(&mut queue, second, result(NativeActionResultKind::Success)),
        Some(Ok(()))
    );
    assert_eq!(
        complete(&mut queue, second, result(NativeActionResultKind::Success)),
        None
    );
}

#[test]
fn cancelling_everything_tells_all_who_wait() {
    let mut queue = ActionQueue::new();
    let first = save(&mut queue, target());
    let second = open(&mut queue, "/tmp/house.dwg".into());
    assert_eq!(take(&mut queue).request_id, first);
    assert_eq!(
        cancel_all(&mut queue),
        vec![(first, Err(Error::PluginStopping)), (second, Err(Error::PluginStopping))]
    );
    assert_eq!(take(&mut queue).kind, NativeActionKind::Idle);
    assert!(cancel_all(&mut queue).is_empty());
    for request_id in [first, second] {
        assert_eq!(
            complete(&mut queue, request_id, result(NativeActionResultKind::Success)),
            None
        );
    }
    assert_eq!(open(&mut queue, "/tmp/house.dwg".into()), 3);
}

#[test]
fn every_native_result_has_its_error_and_message() {
    let failed = |kind| NativeActionResult { kind, native_status: -7, native_detail: String::new() };
    let messages = [
        (
            NativeActionResultKind::OpenFailed,
            "Could not open the drawing (ObjectARX status -7)",
        ),
        (
            NativeActionResultKind::LockFailed,
            "Could not lock the document (ObjectARX status -7)",
        ),
        (
            NativeActionResultKind::CloseFailed,
            "Could not close the document (ObjectARX status -7)",
        ),
        (NativeActionResultKind::DocumentGone, "The document is no longer open"),
        (
            NativeActionResultKind::DocumentChanged,
            "The document changed before AutoCAD could perform the operation",
        ),
        (NativeActionResultKind::Unnamed, "The document has no file name"),
        (NativeActionResultKind::ReadOnly, "The document is read-only"),
        (NativeActionResultKind::Dirty, "The document has unsaved changes"),
        (
            NativeActionResultKind::Other(200),
            "AutoCAD returned an unknown native result (200)",
        ),
    ];
    for (kind, message) in messages {
        assert_eq!(interpret(failed(kind)).unwrap_err().message(), message);
    }
    assert_eq!(Error::StateUnavailable.message(), "native action state is unavailable");
    assert_eq!(
        Error::ScheduleFailed(5).message(),
        "AutoCAD could not schedule the operation (status 5)"
    );
    assert_eq!(Error::Stopped.message(), "the native operation stopped before completion");
    assert_eq!(Error::PluginStopping.message(), "the acadctl plugin is stopping");
}

#[test]
fn a_request_that_could_not_be_scheduled_is_taken_back() {
    let mut queue = ActionQueue::new();
    let first = save(&mut queue, target());
    assert_eq!(woken(&mut queue, first, 0), Ok(()));
    let second = open(&mut queue, "/tmp/house.dwg".into());
    assert_eq!(woken(&mut queue, second, 42), Err(Error::ScheduleFailed(42)));
    assert_eq!(take(&mut queue).request_id, first);
    assert_eq!(take(&mut queue).kind, NativeActionKind::Idle);
    assert_eq!(
        complete(&mut queue, second, result(NativeActionResultKind::Success)),
        None
    );
}
