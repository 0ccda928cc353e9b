//! What the native side saw of an AutoLISP call, turned into a step result.
use vstd::prelude::*;

use super::diagnostic;
use super::diagnostic::bounded_native_diagnostic;
use super::{ExecStepResult, ExecStepResultKind};
use crate::native::{NativeBridgeCleanupPlan, NativeBridgeStepResult};

verus! {

#[derive(Clone, Copy, Debug, PartialEq, Eq, Structural)]
pub enum LispStatus {
    Unavailable,
    Nil,
    True,
    Other,
}

#[derive(Debug, PartialEq, Eq)]
pub struct NativeDiagnostic {
    pub text: String,
    pub truncated: bool,
}

#[derive(Debug, PartialEq, Eq)]
pub struct LispObservation {
    pub command_status: i32,
    pub status: LispStatus,
    pub status_read_status: i32,
    pub errno: Option<i32>,
    pub error: Option<NativeDiagnostic>,
    pub malformed_status: i32,
}

/// A step result as plain values.
#[verifier::ext_equal]
pub struct StepResultView {
    pub kind: ExecStepResultKind,
    pub native_status: i32,
    pub lisp_errno: i32,
    pub detail: Seq<char>,
    pub bridge_symbols_clear_status: i32,
}

impl View for ExecStepResult {
    type V = StepResultView;

    open spec fn view(&self) -> StepResultView {
        StepResultView {
            kind: self.kind,
            native_status: self.native_status,
            lisp_errno: self.lisp_errno,
            detail: self.detail@,
            bridge_symbols_clear_status: self.bridge_symbols_clear_status,
        }
    }
}

impl StepResultView {
    pub open spec fn success() -> StepResultView {
        StepResultView {
            kind: ExecStepResultKind::Success,
            native_status: 0,
            lisp_errno: 0,
            detail: Seq::empty(),
            bridge_symbols_clear_status: 0,
        }
    }

    pub open spec fn native_error(status: i32) -> StepResultView {
        StepResultView {
            kind: ExecStepResultKind::NativeError,
            native_status: status,
            ..StepResultView::success()
        }
    }
}

impl LispObservation {
    /// The step result. A failed command comes first, then a status that could
    /// not be read; only a status that reads as false makes an AutoLISP error.
    pub open spec fn result(&self) -> StepResultView {
        if self.command_status != 0 {
            StepResultView::native_error(self.command_status)
        } else {
            match self.status {
                LispStatus::Unavailable => StepResultView::native_error(
                    if self.status_read_status == 0 {
                        self.malformed_status
                    } else {
                        self.status_read_status
                    },
                ),
                LispStatus::True => StepResultView::success(),
                LispStatus::Other => StepResultView::native_error(self.malformed_status),
                LispStatus::Nil => StepResultView {
                    kind: ExecStepResultKind::LispError,
                    native_status: 0,
                    lisp_errno: match self.errno {
                        Some(errno) => errno,
                        None => 0,
                    },
                    detail: match self.error {
                        Some(error) => diagnostic::bounded_text(error.text@, error.truncated),
                        None => Seq::empty(),
                    },
                    bridge_symbols_clear_status: 0,
                },
            }
        }
    }
}

/// The step result of an observation, and whether its value is to be kept.
pub fn interpret_lisp(observation: LispObservation, retain_value_on_success: bool) -> (plan:
    NativeBridgeCleanupPlan)
    ensures
        plan.result@ == observation.result(),
        plan.retain_value == (retain_value_on_success && observation.command_status == 0
            && observation.status is True),
{
    let result = if observation.command_status != 0 {
        native_error(observation.command_status)
    } else {
        match observation.status {
            LispStatus::Unavailable => native_error(
                nonzero_or(observation.status_read_status, observation.malformed_status),
            ),
            LispStatus::True => success(),
            LispStatus::Other => native_error(observation.malformed_status),
            LispStatus::Nil => {
                let lisp_errno: i32 = match observation.errno {
                    Some(errno) => errno,
                    None => 0,
                };
                let detail = match observation.error {
                    Some(error) => bounded_native_diagnostic(error.text, error.truncated),
                    None => String::new(),
                };
                ExecStepResult {
                    kind: ExecStepResultKind::LispError,
                    native_status: 0,
                    lisp_errno,
                    detail,
                    bridge_symbols_clear_status: 0,
                }
            },
        }
    };
    prepare_cleanup(result, retain_value_on_success)
}

/// Only a successful step keeps its value.
pub fn prepare_cleanup(result: ExecStepResult, retain_value_on_success: bool) -> (plan:
    NativeBridgeCleanupPlan)
    ensures
        plan.result == result,
        plan.retain_value == (result.kind is Success && retain_value_on_success),
{
    let retain_value = result.kind == ExecStepResultKind::Success && retain_value_on_success;
    NativeBridgeCleanupPlan { result, retain_value }
}

/// The result after the reserved symbols were cleared, or could not be.
pub fn complete_cleanup(
    plan: NativeBridgeCleanupPlan,
    cleanup_status: i32,
    fallback_cleanup_status: i32,
) -> (step: NativeBridgeStepResult)
    ensures
        step.result@ == if cleanup_status == 0 {
            plan.result@
        } else {
            StepResultView { bridge_symbols_clear_status: cleanup_status, ..plan.result@ }
        },
        step.bridge_symbols_may_be_retained == if cleanup_status == 0 {
            plan.retain_value
        } else {
            fallback_cleanup_status != 0
        },
{
    let mut plan = plan;
    if cleanup_status == 0 {
        return NativeBridgeStepResult {
            result: plan.result,
            bridge_symbols_may_be_retained: plan.retain_value,
        };
    }
    plan.result.bridge_symbols_clear_status = cleanup_status;
    NativeBridgeStepResult {
        result: plan.result,
        bridge_symbols_may_be_retained: fallback_cleanup_status != 0,
    }
}

fn success() -> (result: ExecStepResult)
    ensures
        result@ == StepResultView::success(),
{
    ExecStepResult {
        kind: ExecStepResultKind::Success,
        native_status: 0,
        lisp_errno: 0,
        detail: String::new(),
        bridge_symbols_clear_status: 0,
    }
}

fn native_error(status: i32) -> (result: ExecStepResult)
    ensures
        result@ == StepResultView::native_error(status),
{
    ExecStepResult {
        kind: ExecStepResultKind::NativeError,
        native_status: status,
        lisp_errno: 0,
        detail: String::new(),
        bridge_symbols_clear_status: 0,
    }
}

fn nonzero_or(status: i32, fallback: i32) -> (result: i32)
    ensures
        result == if status == 0 {
            fallback
        } else {
            status
        },
{
    if status == 0 {
        fallback
    } else {
        status
    }
}

/// A call succeeded exactly where the command ran and AutoLISP said true. It said false for
/// an error of its own, which comes with its number and its text where they are known.
/// Anything else is an error of the native side: the status of the command where that
/// failed, that of the reading where nothing could be read, else that the status was
/// malformed.
pub proof fn law_observations_are_interpreted(observation: LispObservation)
    ensures
        ({
            let result = observation.result();
            let ran = observation.command_status == 0;
            &&& result.kind is Success <==> ran && observation.status is True
            &&& result.kind is LispError <==> ran && observation.status is Nil
            &&& result.bridge_symbols_clear_status == 0
            &&& result.kind is NativeError ==> result.detail.len() == 0 && result.lisp_errno == 0
            &&& !ran ==> result.native_status == observation.command_status
            &&& ran && observation.status is Other ==> result.native_status
                == observation.malformed_status
            &&& ran && observation.status is Unavailable && observation.status_read_status != 0
                ==> result.native_status == observation.status_read_status
            &&& ran && observation.status is Unavailable && observation.status_read_status == 0
                ==> result.native_status == observation.malformed_status
            &&& ran && observation.status is Nil ==> {
                &&& observation.errno is Some ==> result.lisp_errno == observation.errno->0
                &&& observation.errno is None ==> result.lisp_errno == 0
                &&& observation.error is None ==> result.detail.len() == 0
                &&& observation.error matches Some(error) ==> (!error.truncated
                    ==> diagnostic::told_text(result.detail, error.text@))
                &&& result.native_status == 0
            }
        }),
{
    if let Some(error) = observation.error {
        diagnostic::law_diagnostic_keeps_its_text(error.text@);
    }
}

} // verus!
