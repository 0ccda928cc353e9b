//! Why an operation failed.
use vstd::prelude::*;

use crate::text;
use crate::text::{push_decimal, push_signed_decimal};

verus! {

#[derive(Clone, Copy, Debug, PartialEq, Eq, Structural)]
pub enum HistoryDirection {
    Undo,
    Redo,
}

/// What the native side said of a failure.
#[derive(Debug, PartialEq, Eq)]
pub struct NativeFailure {
    pub status: i32,
    pub detail: String,
}

#[verifier::ext_equal]
pub struct NativeFailureView {
    pub status: i32,
    pub detail: Seq<char>,
}

impl View for NativeFailure {
    type V = NativeFailureView;

    open spec fn view(&self) -> NativeFailureView {
        NativeFailureView { status: self.status, detail: self.detail@ }
    }
}

impl NativeFailureView {
    /// The failure behind what could not be done: its detail, or its status where
    /// there is none.
    pub open spec fn in_context(self, context: Seq<char>) -> Seq<char> {
        if self.detail.len() == 0 {
            context + " (ObjectARX status "@ + text::signed_decimal(self.status as int) + ")"@
        } else {
            context + ": "@ + self.detail
        }
    }
}

impl NativeFailure {
    pub fn in_context(&self, context: &str) -> (message: String)
        ensures
            message@ == self@.in_context(context@),
    {
        let mut message = context.to_owned();
        if self.detail.as_str().is_empty() {
            message.push_str(" (ObjectARX status ");
            push_signed_decimal(&mut message, self.status as i64);
            message.push_str(")");
        } else {
            message.push_str(": ");
            message.push_str(self.detail.as_str());
        }
        message
    }
}

#[derive(Debug, PartialEq, Eq)]
pub enum Error {
    SchedulerStateUnavailable,
    ScheduleFailed(i32),
    Stopped,
    PluginStopping,
    DocumentNotFound(String),
    DocumentGone,
    DocumentGenerationChanged,
    Unnamed(String),
    ReadOnly(String),
    Dirty(String),
    NotDwg,
    OpenFailed(NativeFailure),
    LockFailed(NativeFailure),
    SaveFailed(NativeFailure),
    CloseFailed(NativeFailure),
    HistoryFailed { direction: HistoryDirection, failure: NativeFailure },
    OpenNotPublished,
    SaveNotPublished,
    CloseNotPublished,
    NotQuiescent,
    UndoDisabled,
    DocumentContextFailed(NativeFailure),
    DocumentContextRestoreFailed(NativeFailure),
    ExecutionBridgeFinalizationFailed(NativeFailure),
    ExecutionBridgeSymbolsClearFailed(NativeFailure),
    ExecutionBridgeFailed(NativeFailure),
    ExecutionNotFinished,
    MutationCapacity,
    ExecutionCapacity,
    NativeMutationStateUnknown,
    UnknownResult(u8),
}

#[verifier::ext_equal]
pub enum ErrorView {
    SchedulerStateUnavailable,
    ScheduleFailed(i32),
    Stopped,
    PluginStopping,
    DocumentNotFound(Seq<char>),
    DocumentGone,
    DocumentGenerationChanged,
    Unnamed(Seq<char>),
    ReadOnly(Seq<char>),
    Dirty(Seq<char>),
    NotDwg,
    OpenFailed(NativeFailureView),
    LockFailed(NativeFailureView),
    SaveFailed(NativeFailureView),
    CloseFailed(NativeFailureView),
    HistoryFailed { direction: HistoryDirection, failure: NativeFailureView },
    OpenNotPublished,
    SaveNotPublished,
    CloseNotPublished,
    NotQuiescent,
    UndoDisabled,
    DocumentContextFailed(NativeFailureView),
    DocumentContextRestoreFailed(NativeFailureView),
    ExecutionBridgeFinalizationFailed(NativeFailureView),
    ExecutionBridgeSymbolsClearFailed(NativeFailureView),
    ExecutionBridgeFailed(NativeFailureView),
    ExecutionNotFinished,
    MutationCapacity,
    ExecutionCapacity,
    NativeMutationStateUnknown,
    UnknownResult(u8),
}

impl View for Error {
    type V = ErrorView;

    open spec fn view(&self) -> ErrorView {
        match self {
            Error::SchedulerStateUnavailable => ErrorView::SchedulerStateUnavailable,
            Error::ScheduleFailed(status) => ErrorView::ScheduleFailed(*status),
            Error::Stopped => ErrorView::Stopped,
            Error::PluginStopping => ErrorView::PluginStopping,
            Error::DocumentNotFound(id) => ErrorView::DocumentNotFound(id@),
            Error::DocumentGone => ErrorView::DocumentGone,
            Error::DocumentGenerationChanged => ErrorView::DocumentGenerationChanged,
            Error::Unnamed(id) => ErrorView::Unnamed(id@),
            Error::ReadOnly(id) => ErrorView::ReadOnly(id@),
            Error::Dirty(id) => ErrorView::Dirty(id@),
            Error::NotDwg => ErrorView::NotDwg,
            Error::OpenFailed(failure) => ErrorView::OpenFailed(failure@),
            Error::LockFailed(failure) => ErrorView::LockFailed(failure@),
            Error::SaveFailed(failure) => ErrorView::SaveFailed(failure@),
            Error::CloseFailed(failure) => ErrorView::CloseFailed(failure@),
            Error::HistoryFailed { direction, failure } => ErrorView::HistoryFailed {
                direction: *direction,
                failure: failure@,
            },
            Error::OpenNotPublished => ErrorView::OpenNotPublished,
            Error::SaveNotPublished => ErrorView::SaveNotPublished,
            Error::CloseNotPublished => ErrorView::CloseNotPublished,
            Error::NotQuiescent => ErrorView::NotQuiescent,
            Error::UndoDisabled => ErrorView::UndoDisabled,
            Error::DocumentContextFailed(failure) => ErrorView::DocumentContextFailed(failure@),
            Error::DocumentContextRestoreFailed(failure) => ErrorView::DocumentContextRestoreFailed(failure@),
            Error::ExecutionBridgeFinalizationFailed(failure) => ErrorView::ExecutionBridgeFinalizationFailed(failure@),
            Error::ExecutionBridgeSymbolsClearFailed(failure) => ErrorView::ExecutionBridgeSymbolsClearFailed(failure@),
            Error::ExecutionBridgeFailed(failure) => ErrorView::ExecutionBridgeFailed(failure@),
            Error::ExecutionNotFinished => ErrorView::ExecutionNotFinished,
            Error::MutationCapacity => ErrorView::MutationCapacity,
            Error::ExecutionCapacity => ErrorView::ExecutionCapacity,
            Error::NativeMutationStateUnknown => ErrorView::NativeMutationStateUnknown,
            Error::UnknownResult(kind) => ErrorView::UnknownResult(*kind),
        }
    }
}

impl ErrorView {
    /// What the user is told.
    pub open spec fn message(self) -> Seq<char> {
        match self {
            ErrorView::SchedulerStateUnavailable => "mutation scheduler state is unavailable"@,
            ErrorView::ScheduleFailed(status) => {
                "AutoCAD could not schedule the operation (status "@ + text::signed_decimal(
                    status as int,
                ) + ")"@
            },
            ErrorView::Stopped => "the native operation stopped before completion"@,
            ErrorView::PluginStopping => "the acadctl plugin is stopping"@,
            ErrorView::DocumentNotFound(id) => "Document '"@ + id + "' is not open."@,
            ErrorView::DocumentGone => "The document is no longer open"@,
            ErrorView::DocumentGenerationChanged => "The document was replaced before AutoCAD could perform the operation"@,
            ErrorView::Unnamed(id) => "Document '"@ + id + "' has no file name. Save As is not supported yet."@,
            ErrorView::ReadOnly(id) => "Document '"@ + id + "' is read-only."@,
            ErrorView::Dirty(id) => {
                "Document '"@ + id + "' has unsaved changes. Run `acadctl save "@ + id
                    + "` first or use `acadctl close "@ + id + " --discard`."@
            },
            ErrorView::NotDwg => "Only DWG drawings can be saved"@,
            ErrorView::OpenFailed(failure) => failure.in_context("Could not open the drawing"@),
            ErrorView::LockFailed(failure) => failure.in_context("Could not lock the document"@),
            ErrorView::SaveFailed(failure) => failure.in_context("Could not save the document"@),
            ErrorView::CloseFailed(failure) => failure.in_context("Could not close the document"@),
            ErrorView::HistoryFailed { direction, failure } => match direction {
                HistoryDirection::Undo => failure.in_context(
                    "Could not undo the drawing's last history step"@,
                ),
                HistoryDirection::Redo => failure.in_context(
                    "Could not redo the drawing's next history step"@,
                ),
            },
            ErrorView::OpenNotPublished => "AutoCAD opened the drawing but did not publish its document state"@,
            ErrorView::SaveNotPublished => "AutoCAD completed the save but still reports unsaved changes"@,
            ErrorView::CloseNotPublished => "AutoCAD completed the close but the document is still open"@,
            ErrorView::NotQuiescent => "The document is busy"@,
            ErrorView::UndoDisabled => "Undo recording is disabled for the document"@,
            ErrorView::DocumentContextFailed(failure) => failure.in_context("Could not establish document context"@),
            ErrorView::DocumentContextRestoreFailed(failure) => failure.in_context("Could not release the AutoCAD document context safely"@),
            ErrorView::ExecutionBridgeFinalizationFailed(failure) => failure.in_context("Could not release native execution state safely"@),
            ErrorView::ExecutionBridgeSymbolsClearFailed(failure) => failure.in_context("Could not clear the reserved AutoLISP execution bridge symbols"@),
            ErrorView::ExecutionBridgeFailed(failure) => failure.in_context("The AutoLISP execution bridge failed"@),
            ErrorView::ExecutionNotFinished => "The native execution ended without a terminal outcome"@,
            ErrorView::MutationCapacity => "AutoCAD already has the maximum number of pending operations"@,
            ErrorView::ExecutionCapacity => "AutoCAD already has the maximum number or total size of execution requests"@,
            ErrorView::NativeMutationStateUnknown => "AutoCAD's mutation context is unknown; restart AutoCAD before issuing another mutation"@,
            ErrorView::UnknownResult(kind) => {
                "AutoCAD returned an unknown native result ("@ + text::decimal(kind as nat) + ")"@
            },
        }
    }

    /// The plugin or AutoCAD is at fault, not the request.
    pub open spec fn internal(self) -> bool {
        ||| self is SchedulerStateUnavailable
        ||| self is Stopped
        ||| self is OpenNotPublished
        ||| self is SaveNotPublished
        ||| self is CloseNotPublished
        ||| self is DocumentContextFailed
        ||| self is DocumentContextRestoreFailed
        ||| self is ExecutionBridgeFinalizationFailed
        ||| self is ExecutionBridgeSymbolsClearFailed
        ||| self is ExecutionBridgeFailed
        ||| self is ExecutionNotFinished
        ||| self is NativeMutationStateUnknown
    }
}

/// A native failure is told behind what could not be done: by its detail where it has one,
/// else by its status.
pub proof fn law_native_failure_is_explained(failure: NativeFailureView, context: Seq<char>)
    ensures
        ({
            let message = failure.in_context(context);
            &&& context.is_prefix_of(message)
            &&& failure.detail.len() > 0 ==> message.skip(context.len() as int) == ": "@
                + failure.detail
            &&& failure.detail.len() == 0 ==> message.skip(context.len() as int)
                == " (ObjectARX status "@ + text::signed_decimal(failure.status as int) + ")"@
        }),
{
    let message = failure.in_context(context);
    assert(message.take(context.len() as int) =~= context);
    if failure.detail.len() > 0 {
        assert(message.skip(context.len() as int) =~= ": "@ + failure.detail);
    } else {
        assert(message.skip(context.len() as int) =~= " (ObjectARX status "@ + text::signed_decimal(
            failure.status as int,
        ) + ")"@);
    }
}

/// What a native failure is told as, by what was tried.
pub proof fn law_failed_work_is_named(failure: NativeFailureView)
    ensures
        "Could not open the drawing"@.is_prefix_of(ErrorView::OpenFailed(failure).message()),
        "Could not lock the document"@.is_prefix_of(ErrorView::LockFailed(failure).message()),
        "Could not save the document"@.is_prefix_of(ErrorView::SaveFailed(failure).message()),
        "Could not close the document"@.is_prefix_of(ErrorView::CloseFailed(failure).message()),
        "Could not undo the drawing's last history step"@.is_prefix_of(
            ErrorView::HistoryFailed { direction: HistoryDirection::Undo, failure }.message(),
        ),
        "Could not redo the drawing's next history step"@.is_prefix_of(
            ErrorView::HistoryFailed { direction: HistoryDirection::Redo, failure }.message(),
        ),
        "Could not establish document context"@.is_prefix_of(
            ErrorView::DocumentContextFailed(failure).message(),
        ),
        "Could not release the AutoCAD document context safely"@.is_prefix_of(
            ErrorView::DocumentContextRestoreFailed(failure).message(),
        ),
        "Could not release native execution state safely"@.is_prefix_of(
            ErrorView::ExecutionBridgeFinalizationFailed(failure).message(),
        ),
        "Could not clear the reserved AutoLISP execution bridge symbols"@.is_prefix_of(
            ErrorView::ExecutionBridgeSymbolsClearFailed(failure).message(),
        ),
        "The AutoLISP execution bridge failed"@.is_prefix_of(
            ErrorView::ExecutionBridgeFailed(failure).message(),
        ),
{
    law_native_failure_is_explained(failure, "Could not open the drawing"@);
    law_native_failure_is_explained(failure, "Could not lock the document"@);
    law_native_failure_is_explained(failure, "Could not save the document"@);
    law_native_failure_is_explained(failure, "Could not close the document"@);
    law_native_failure_is_explained(failure, "Could not undo the drawing's last history step"@);
    law_native_failure_is_explained(failure, "Could not redo the drawing's next history step"@);
    law_native_failure_is_explained(failure, "Could not establish document context"@);
    law_native_failure_is_explained(
        failure,
        "Could not release the AutoCAD document context safely"@,
    );
    law_native_failure_is_explained(failure, "Could not release native execution state safely"@);
    law_native_failure_is_explained(
        failure,
        "Could not clear the reserved AutoLISP execution bridge symbols"@,
    );
    law_native_failure_is_explained(failure, "The AutoLISP execution bridge failed"@);
}

/// An error that is about a document names it, and says what is wrong with it.
pub proof fn law_document_is_named(id: Seq<char>)
    ensures
        ({
            let named = "Document '"@ + id;
            let missing = ErrorView::DocumentNotFound(id).message();
            let unnamed = ErrorView::Unnamed(id).message();
            let fixed = ErrorView::ReadOnly(id).message();
            let dirty = ErrorView::Dirty(id).message();
            &&& named.is_prefix_of(missing) && "' is not open."@.is_suffix_of(missing)
            &&& named.is_prefix_of(unnamed)
                && "' has no file name. Save As is not supported yet."@.is_suffix_of(unnamed)
            &&& named.is_prefix_of(fixed) && "' is read-only."@.is_suffix_of(fixed)
            &&& (named + "' has unsaved changes. Run `acadctl save "@ + id).is_prefix_of(dirty)
            &&& ("` first or use `acadctl close "@ + id + " --discard`."@).is_suffix_of(dirty)
        }),
{
    let named = "Document '"@ + id;
    lemma_joined(named, "' is not open."@);
    lemma_joined(named, "' has no file name. Save As is not supported yet."@);
    lemma_joined(named, "' is read-only."@);
    let front = named + "' has unsaved changes. Run `acadctl save "@ + id;
    let back = "` first or use `acadctl close "@ + id + " --discard`."@;
    lemma_joined(front, back);
    assert(ErrorView::Dirty(id).message() =~= front + back);
}

proof fn lemma_joined(front: Seq<char>, back: Seq<char>)
    ensures
        front.is_prefix_of(front + back),
        back.is_suffix_of(front + back),
{
    assert((front + back).take(front.len() as int) =~= front);
    assert((front + back).skip(front.len() as int) =~= back);
}

fn about_document(id: &str, what: &str) -> (message: String)
    ensures
        message@ == "Document '"@ + id@ + what@,
{
    let mut message = "Document '".to_owned();
    message.push_str(id);
    message.push_str(what);
    message
}

impl Error {
    /// What the user is told.
    pub fn message(&self) -> (message: String)
        ensures
            message@ == self@.message(),
    {
        match self {
            Error::SchedulerStateUnavailable => "mutation scheduler state is unavailable".to_owned(),
            Error::ScheduleFailed(status) => {
                let mut message = "AutoCAD could not schedule the operation (status ".to_owned();
                push_signed_decimal(&mut message, *status as i64);
                message.push_str(")");
                message
            },
            Error::Stopped => "the native operation stopped before completion".to_owned(),
            Error::PluginStopping => "the acadctl plugin is stopping".to_owned(),
            Error::DocumentNotFound(id) => about_document(id.as_str(), "' is not open."),
            Error::DocumentGone => "The document is no longer open".to_owned(),
            Error::DocumentGenerationChanged => "The document was replaced before AutoCAD could perform the operation".to_owned(),
            Error::Unnamed(id) => about_document(id.as_str(), "' has no file name. Save As is not supported yet."),
            Error::ReadOnly(id) => about_document(id.as_str(), "' is read-only."),
            Error::Dirty(id) => {
                let mut message = "Document '".to_owned();
                message.push_str(id.as_str());
                message.push_str("' has unsaved changes. Run `acadctl save ");
                message.push_str(id.as_str());
                message.push_str("` first or use `acadctl close ");
                message.push_str(id.as_str());
                message.push_str(" --discard`.");
                message
            },
            Error::NotDwg => "Only DWG drawings can be saved".to_owned(),
            Error::OpenFailed(failure) => failure.in_context("Could not open the drawing"),
            Error::LockFailed(failure) => failure.in_context("Could not lock the document"),
            Error::SaveFailed(failure) => failure.in_context("Could not save the document"),
            Error::CloseFailed(failure) => failure.in_context("Could not close the document"),
            Error::HistoryFailed { direction, failure } => match direction {
                HistoryDirection::Undo => failure.in_context(
                    "Could not undo the drawing's last history step",
                ),
                HistoryDirection::Redo => failure.in_context(
                    "Could not redo the drawing's next history step",
                ),
            },
            Error::OpenNotPublished => "AutoCAD opened the drawing but did not publish its document state".to_owned(),
            Error::SaveNotPublished => "AutoCAD completed the save but still reports unsaved changes".to_owned(),
            Error::CloseNotPublished => "AutoCAD completed the close but the document is still open".to_owned(),
            Error::NotQuiescent => "The document is busy".to_owned(),
            Error::UndoDisabled => "Undo recording is disabled for the document".to_owned(),
            Error::DocumentContextFailed(failure) => failure.in_context("Could not establish document context"),
            Error::DocumentContextRestoreFailed(failure) => failure.in_context("Could not release the AutoCAD document context safely"),
            Error::ExecutionBridgeFinalizationFailed(failure) => failure.in_context("Could not release native execution state safely"),
            Error::ExecutionBridgeSymbolsClearFailed(failure) => failure.in_context("Could not clear the reserved AutoLISP execution bridge symbols"),
            Error::ExecutionBridgeFailed(failure) => failure.in_context("The AutoLISP execution bridge failed"),
            Error::ExecutionNotFinished => "The native execution ended without a terminal outcome".to_owned(),
            Error::MutationCapacity => "AutoCAD already has the maximum number of pending operations".to_owned(),
            Error::ExecutionCapacity => "AutoCAD already has the maximum number or total size of execution requests".to_owned(),
            Error::NativeMutationStateUnknown => "AutoCAD's mutation context is unknown; restart AutoCAD before issuing another mutation".to_owned(),
            Error::UnknownResult(kind) => {
                let mut message = "AutoCAD returned an unknown native result (".to_owned();
                push_decimal(&mut message, *kind as u64);
                message.push_str(")");
                message
            },
        }
    }

    /// Whether the plugin or AutoCAD is at fault, not the request.
    pub fn is_internal(&self) -> (result: bool)
        ensures
            result == self@.internal(),
    {
        match self {
            Error::SchedulerStateUnavailable
            | Error::Stopped
            | Error::OpenNotPublished
            | Error::SaveNotPublished
            | Error::CloseNotPublished
            | Error::DocumentContextFailed(_)
            | Error::DocumentContextRestoreFailed(_)
            | Error::ExecutionBridgeFinalizationFailed(_)
            | Error::ExecutionBridgeSymbolsClearFailed(_)
            | Error::ExecutionBridgeFailed(_)
            | Error::ExecutionNotFinished
            | Error::NativeMutationStateUnknown => true,
            _ => false,
        }
    }
}

} // verus!
