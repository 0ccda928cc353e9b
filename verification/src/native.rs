//! The plain values that cross the boundary to the native plugin.
use vstd::prelude::*;

verus! {

/// One open document as the native side reports it.
#[derive(Debug, PartialEq, Eq)]
pub struct NativeDocumentSnapshot {
    pub document_token: usize,
    pub database_token: usize,
    pub name: String,
    pub named: bool,
    pub modified: bool,
    pub read_only: bool,
    pub active: bool,
}

/// What the native side has to do next for an execution.
#[derive(Clone, Copy, Debug, PartialEq, Eq, Structural)]
pub enum NativeExecStepKind {
    Invalid,
    BeginUndoGroup,
    EvaluateForm,
    CommitUndoGroup,
    EmitEvalValue,
    ClearRetainedEvalValue,
    CloseEmptyUndoGroup,
    RollbackUndoGroup,
    Done,
}

#[derive(Clone, Copy, Debug, PartialEq, Eq, Structural)]
pub enum NativeExecStepResultKind {
    Success,
    LispError,
    NativeError,
}

/// How a step went. `bridge_symbols_clear_status` is zero unless the reserved
/// AutoLISP symbols could not be cleared afterwards.
#[derive(Debug, PartialEq, Eq)]
pub struct NativeExecStepResult {
    pub kind: NativeExecStepResultKind,
    pub native_status: i32,
    pub lisp_errno: i32,
    pub detail: String,
    pub bridge_symbols_clear_status: i32,
}

/// A step result together with whether its value is to be kept.
#[derive(Debug, PartialEq, Eq)]
pub struct NativeBridgeCleanupPlan {
    pub result: NativeExecStepResult,
    pub retain_value: bool,
}

#[derive(Debug, PartialEq, Eq)]
pub struct NativeBridgeStepResult {
    pub result: NativeExecStepResult,
    pub bridge_symbols_may_be_retained: bool,
}

/// What an output event was answered.
#[derive(Clone, Copy, Debug, PartialEq, Eq, Structural)]
pub enum NativeOutputWriteResult {
    Continue,
    Inactive,
    Disconnected,
    Cancelled,
    Stopped,
    Finished,
    InvalidSequence,
    LimitExceeded,
    /// The text waits for room; the final answer is still to come.
    Blocked,
}

/// What the native side is asked to do.
#[derive(Clone, Copy, Debug, PartialEq, Eq, Structural)]
pub enum NativeActionKind {
    Idle,
    Open,
    Save,
    Close,
    Undo,
    Redo,
    QueueExecutionDriver,
}

/// How an action went. `Other` holds any number that stands for nothing known.
#[derive(Clone, Copy, Debug, PartialEq, Eq, Structural)]
pub enum NativeActionResultKind {
    Success,
    DocumentGone,
    DocumentGenerationChanged,
    DocumentChanged,
    Unnamed,
    ReadOnly,
    Dirty,
    OpenFailed,
    LockFailed,
    SaveFailed,
    CloseFailed,
    HistoryFailed,
    NotQuiescent,
    UndoDisabled,
    DocumentContextFailed,
    DocumentContextRestoreFailed,
    ExecutionBridgeFinalizationFailed,
    ExecutionBridgeSymbolsClearFailed,
    ExecutionBridgeFailed,
    Other(u8),
}

impl NativeActionResultKind {
    /// The number of a kind, by which one that was not expected is reported.
    pub open spec fn number(self) -> u8 {
        match self {
            NativeActionResultKind::Success => 0,
            NativeActionResultKind::DocumentGone => 1,
            NativeActionResultKind::DocumentGenerationChanged => 2,
            NativeActionResultKind::DocumentChanged => 3,
            NativeActionResultKind::Unnamed => 4,
            NativeActionResultKind::ReadOnly => 5,
            NativeActionResultKind::Dirty => 6,
            NativeActionResultKind::OpenFailed => 7,
            NativeActionResultKind::LockFailed => 8,
            NativeActionResultKind::SaveFailed => 9,
            NativeActionResultKind::CloseFailed => 10,
            NativeActionResultKind::HistoryFailed => 11,
            NativeActionResultKind::NotQuiescent => 12,
            NativeActionResultKind::UndoDisabled => 13,
            NativeActionResultKind::DocumentContextFailed => 14,
            NativeActionResultKind::DocumentContextRestoreFailed => 15,
            NativeActionResultKind::ExecutionBridgeFinalizationFailed => 16,
            NativeActionResultKind::ExecutionBridgeSymbolsClearFailed => 17,
            NativeActionResultKind::ExecutionBridgeFailed => 18,
            NativeActionResultKind::Other(number) => number,
        }
    }

    pub fn code(&self) -> (code: u8)
        ensures
            code == self.number(),
    {
        match *self {
            NativeActionResultKind::Success => 0,
            NativeActionResultKind::DocumentGone => 1,
            NativeActionResultKind::DocumentGenerationChanged => 2,
            NativeActionResultKind::DocumentChanged => 3,
            NativeActionResultKind::Unnamed => 4,
            NativeActionResultKind::ReadOnly => 5,
            NativeActionResultKind::Dirty => 6,
            NativeActionResultKind::OpenFailed => 7,
            NativeActionResultKind::LockFailed => 8,
            NativeActionResultKind::SaveFailed => 9,
            NativeActionResultKind::CloseFailed => 10,
            NativeActionResultKind::HistoryFailed => 11,
            NativeActionResultKind::NotQuiescent => 12,
            NativeActionResultKind::UndoDisabled => 13,
            NativeActionResultKind::DocumentContextFailed => 14,
            NativeActionResultKind::DocumentContextRestoreFailed => 15,
            NativeActionResultKind::ExecutionBridgeFinalizationFailed => 16,
            NativeActionResultKind::ExecutionBridgeSymbolsClearFailed => 17,
            NativeActionResultKind::ExecutionBridgeFailed => 18,
            NativeActionResultKind::Other(number) => number,
        }
    }
}

#[derive(Debug, PartialEq, Eq)]
pub struct NativeActionResult {
    pub kind: NativeActionResultKind,
    pub native_status: i32,
    pub native_detail: String,
}

#[verifier::ext_equal]
pub struct ActionResultView {
    pub kind: NativeActionResultKind,
    pub native_status: i32,
    pub native_detail: Seq<char>,
}

impl View for NativeActionResult {
    type V = ActionResultView;

    open spec fn view(&self) -> ActionResultView {
        ActionResultView {
            kind: self.kind,
            native_status: self.native_status,
            native_detail: self.native_detail@,
        }
    }
}

/// What the native side knows about its state when an execution has ended.
#[derive(Clone, Copy, Debug, PartialEq, Eq, Structural)]
pub struct NativeExecutionFinalizationObservation {
    pub undo_group_may_be_open: bool,
    pub bridge_symbols_may_be_retained: bool,
    pub staged_form_may_be_retained: bool,
    pub value_writer_active: bool,
    pub terminal_cleanup_failed: bool,
}

impl Default for NativeExecutionFinalizationObservation {
    /// Nothing is in doubt.
    fn default() -> (observation: NativeExecutionFinalizationObservation)
        ensures
            !observation.undo_group_may_be_open,
            !observation.bridge_symbols_may_be_retained,
            !observation.staged_form_may_be_retained,
            !observation.value_writer_active,
            !observation.terminal_cleanup_failed,
    {
        NativeExecutionFinalizationObservation {
            undo_group_may_be_open: false,
            bridge_symbols_may_be_retained: false,
            staged_form_may_be_retained: false,
            value_writer_active: false,
            terminal_cleanup_failed: false,
        }
    }
}

} // verus!
