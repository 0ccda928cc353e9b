//! What lies behind an execution, call by call.
use vstd::prelude::*;

use super::io::ValueBridgeState;
use super::lisp::StepResultView;
use super::outcome::{ExecMode, OutcomeView};
use super::source::{FormSpan, ScanError};
use super::state::{CauseView, ExecView};
use crate::execution::output::OutputView;

verus! {

/// What can be asked of an execution. `Use` stands for every use of its output and its
/// bridge.
pub enum Call {
    TakeStep,
    CompleteStep(StepResultView),
    RequestCancel,
    CancelBeforeStart,
    ExpireBeforeStart(Seq<char>),
    TakeOutcome,
    Use { bridge: ValueBridgeState, output: OutputView },
    RecordBridgeFinalizationFailure(StepResultView),
    Abandon(StepResultView),
}

/// An execution and what was done for it: how many forms it handed out, how many of them
/// were evaluated with success, and whether its undo group was committed or rolled back
/// with success.
pub struct Trail {
    pub state: ExecView,
    pub forms_taken: int,
    pub forms_evaluated: int,
    pub committed: bool,
    pub rolled_back: bool,
}

impl Trail {
    pub open spec fn start(state: ExecView) -> Trail {
        Trail {
            state,
            forms_taken: 0,
            forms_evaluated: 0,
            committed: false,
            rolled_back: false,
        }
    }

    /// After one more call.
    pub open spec fn after(self, call: Call) -> Trail {
        let state = self.state;
        match call {
            Call::TakeStep => Trail {
                state: state.stepped(),
                forms_taken: self.forms_taken + if state.resolved().step().kind is EvaluateForm {
                    1int
                } else {
                    0
                },
                ..self
            },
            Call::CompleteStep(result) => Trail {
                state: state.completed(result),
                forms_evaluated: self.forms_evaluated + if state.phase is AwaitingEvaluateForm
                    && result.succeeded() {
                    1int
                } else {
                    0
                },
                committed: self.committed || (state.phase is AwaitingCommitUndoGroup
                    && result.succeeded()),
                rolled_back: self.rolled_back || (state.phase is AwaitingRollbackUndoGroup
                    && result.succeeded()),
                ..self
            },
            Call::RequestCancel => if state.cancellable() {
                Trail { state: ExecView { cancel_requested: true, ..state }, ..self }
            } else {
                self
            },
            Call::CancelBeforeStart => if state.phase is BeginUndoGroup {
                Trail {
                    state: ExecView {
                        cancel_requested: true,
                        ..state.ended(OutcomeView::Cancelled)
                    },
                    ..self
                }
            } else {
                self
            },
            Call::ExpireBeforeStart(message) => if state.expirable() {
                Trail { state: state.expired(message), ..self }
            } else {
                self
            },
            Call::TakeOutcome => Trail { state: ExecView { outcome: None, ..state }, ..self },
            Call::Use { bridge, output } => Trail {
                state: ExecView { bridge, output, ..state },
                ..self
            },
            Call::RecordBridgeFinalizationFailure(result) => Trail {
                state: state.finalization_failed(result),
                ..self
            },
            Call::Abandon(result) => Trail { state: state.abandoned(result), ..self },
        }
    }

    /// After any number of calls.
    pub open spec fn after_all(self, calls: Seq<Call>) -> Trail
        decreases calls.len(),
    {
        if calls.len() == 0 {
            self
        } else {
            self.after_all(calls.drop_last()).after(calls.last())
        }
    }

    /// Every form was evaluated with success, and so was the commit.
    pub open spec fn carried_out(self) -> bool {
        &&& self.forms_taken == self.state.forms.len()
        &&& self.forms_evaluated == self.state.forms.len()
        &&& self.committed
    }

    /// The outcome says nothing that was not done.
    pub open spec fn outcome_is_true(self, empty: bool) -> bool {
        match self.state.outcome {
            Some(OutcomeView::Failure(failure)) => {
                &&& failure.drawing_outcome is RolledBack ==> self.rolled_back
                &&& failure.drawing_outcome is Committed ==> self.state.mode is Eval
                    && self.committed
                &&& failure.drawing_outcome is NotStarted ==> self.forms_taken == 0
            },
            Some(OutcomeView::Success) => empty || self.carried_out(),
            _ => true,
        }
    }

    /// What holds of an execution and its trail after every call.
    spec fn told(self, empty: bool) -> bool {
        let phase = self.state.phase;
        &&& self.state.consistent()
        &&& self.forms_taken == self.state.next_form
        &&& self.forms_taken > 0 <==> self.state.form_handed_off
        &&& empty ==> phase is Terminal || phase is Done
        &&& phase is BeginUndoGroup || phase is AwaitingBeginUndoGroup || phase is BetweenForms
            || phase is AwaitingCommitUndoGroup ==> self.forms_evaluated == self.forms_taken
        &&& phase is AwaitingEvaluateForm ==> self.forms_evaluated == self.forms_taken - 1
        &&& phase is AwaitingCommitUndoGroup ==> self.forms_taken == self.state.forms.len()
        &&& phase is EmitEvalValue || phase is AwaitingEmitEvalValue ==> self.state.mode is Eval
            && self.carried_out()
        &&& self.state.unwind matches Some(CauseView::Failure(failure)) ==> {
            &&& !(failure.drawing_outcome is RolledBack)
            &&& !(failure.drawing_outcome is Committed)
        }
        &&& self.outcome_is_true(empty)
    }
}

proof fn lemma_step_is_told(trail: Trail, empty: bool)
    requires
        trail.told(empty),
    ensures
        trail.after(Call::TakeStep).told(empty),
{
}

#[verifier::rlimit(30)]
proof fn lemma_result_is_told(trail: Trail, empty: bool, result: StepResultView)
    requires
        trail.told(empty),
    ensures
        trail.after(Call::CompleteStep(result)).told(empty),
{
}

proof fn lemma_end_is_told(trail: Trail, empty: bool, result: StepResultView)
    requires
        trail.told(empty),
    ensures
        trail.after(Call::Abandon(result)).told(empty),
        trail.after(Call::RecordBridgeFinalizationFailure(result)).told(empty),
{
}

proof fn lemma_deadline_is_told(trail: Trail, empty: bool, message: Seq<char>)
    requires
        trail.told(empty),
    ensures
        trail.after(Call::ExpireBeforeStart(message)).told(empty),
{
}

proof fn lemma_cancellation_is_told(trail: Trail, empty: bool)
    requires
        trail.told(empty),
    ensures
        trail.after(Call::RequestCancel).told(empty),
        trail.after(Call::CancelBeforeStart).told(empty),
        trail.after(Call::TakeOutcome).told(empty),
{
}

proof fn lemma_use_is_told(
    trail: Trail,
    empty: bool,
    bridge: ValueBridgeState,
    output: OutputView,
)
    requires
        trail.told(empty),
    ensures
        trail.after(Call::Use { bridge, output }).told(empty),
{
}

proof fn lemma_call_is_told(trail: Trail, empty: bool, call: Call)
    requires
        trail.told(empty),
    ensures
        trail.after(call).told(empty),
        trail.after(call).state.mode == trail.state.mode,
        trail.after(call).state.forms == trail.state.forms,
{
    match call {
        Call::TakeStep => lemma_step_is_told(trail, empty),
        Call::CompleteStep(result) => lemma_result_is_told(trail, empty, result),
        Call::RequestCancel => lemma_cancellation_is_told(trail, empty),
        Call::CancelBeforeStart => lemma_cancellation_is_told(trail, empty),
        Call::ExpireBeforeStart(message) => lemma_deadline_is_told(trail, empty, message),
        Call::TakeOutcome => lemma_cancellation_is_told(trail, empty),
        Call::Use { bridge, output } => lemma_use_is_told(trail, empty, bridge, output),
        Call::RecordBridgeFinalizationFailure(result) => lemma_end_is_told(trail, empty, result),
        Call::Abandon(result) => lemma_end_is_told(trail, empty, result),
    }
}

proof fn lemma_calls_are_told(trail: Trail, empty: bool, calls: Seq<Call>)
    requires
        trail.told(empty),
    ensures
        trail.after_all(calls).told(empty),
        trail.after_all(calls).state.mode == trail.state.mode,
        trail.after_all(calls).state.forms == trail.state.forms,
    decreases calls.len(),
{
    if calls.len() > 0 {
        lemma_calls_are_told(trail, empty, calls.drop_last());
        lemma_call_is_told(trail.after_all(calls.drop_last()), empty, calls.last());
    }
}

/// Whatever is asked of an execution, and in whatever order, its outcome is true. A
/// drawing counts as rolled back only after a rollback that succeeded, as committed only
/// for an evaluation whose commit succeeded, and as not started only if no form was handed
/// out. Success means that every form was evaluated and the undo group committed with
/// success, unless the source has no form.
pub proof fn law_outcome_is_true(
    mode: ExecMode,
    source_name: Seq<char>,
    source: Seq<u8>,
    forms: Seq<Result<FormSpan, ScanError>>,
    form_count: usize,
    calls: Seq<Call>,
)
    requires
        ExecView::fresh(mode, source_name, source, forms, form_count).consistent(),
    ensures
        ({
            let start = ExecView::fresh(mode, source_name, source, forms, form_count);
            let trail = Trail::start(start).after_all(calls);
            &&& trail.state.mode == mode
            &&& trail.state.forms == forms
            &&& trail.outcome_is_true(form_count == 0)
        }),
{
    let start = ExecView::fresh(mode, source_name, source, forms, form_count);
    lemma_calls_are_told(Trail::start(start), form_count == 0, calls);
}

} // verus!
