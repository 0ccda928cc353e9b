//! What lies behind the execution of a batch, call by call.
use vstd::prelude::*;

use super::{ExecutionView, OutcomeView, StepResult};
use crate::exec::source::{FormSpan, ScanError};

verus! {

/// What can be asked of an execution.
pub enum Call {
    TakeStep,
    CompleteStep(StepResult),
    TakeOutcome,
    RecordTerminalFailure(StepResult),
    Abandon(StepResult),
}

/// An execution and what was done for it: how many forms it handed out, how many of them
/// were evaluated with success, and whether its undo group was committed or rolled back
/// with success.
pub struct Trail {
    pub state: ExecutionView,
    pub forms_taken: int,
    pub forms_evaluated: int,
    pub committed: bool,
    pub rolled_back: bool,
}

impl Trail {
    pub open spec fn start(state: ExecutionView) -> Trail {
        Trail {
            state,
            forms_taken: 0,
            forms_evaluated: 0,
            committed: false,
            rolled_back: false,
        }
    }

    /// After one more call.
    pub open spec fn after(self, call: Call) -> Trail {
        let state = self.state;
        match call {
            Call::TakeStep => Trail {
                state: state.stepped(),
                forms_taken: self.forms_taken + if state.resolved().step().kind is Form {
                    1int
                } else {
                    0
                },
                ..self
            },
            Call::CompleteStep(result) => Trail {
                state: state.completed(result),
                forms_evaluated: self.forms_evaluated + if state.phase is AwaitingForm
                    && result.kind is Success {
                    1int
                } else {
                    0
                },
                committed: self.committed || (state.phase is AwaitingCommit
                    && result.kind is Success),
                rolled_back: self.rolled_back || (state.phase is AwaitingRollback
                    && result.kind is Success),
                ..self
            },
            Call::TakeOutcome => Trail { state: ExecutionView { outcome: None, ..state }, ..self },
            Call::RecordTerminalFailure(result) => Trail {
                state: state.release_failed(result),
                ..self
            },
            Call::Abandon(result) => Trail { state: state.abandoned(result), ..self },
        }
    }

    /// After any number of calls.
    pub open spec fn after_all(self, calls: Seq<Call>) -> Trail
        decreases calls.len(),
    {
        if calls.len() == 0 {
            self
        } else {
            self.after_all(calls.drop_last()).after(calls.last())
        }
    }

    /// Every form was evaluated with success, and so was the commit.
    pub open spec fn carried_out(self) -> bool {
        &&& self.forms_taken == self.state.forms.len()
        &&& self.forms_evaluated == self.state.forms.len()
        &&& self.committed
    }

    /// The outcome says nothing that was not done.
    pub open spec fn outcome_is_true(self, empty: bool) -> bool {
        match self.state.outcome {
            Some(OutcomeView::Failure(failure)) => {
                &&& failure.drawing_outcome is RolledBack ==> self.rolled_back
                &&& failure.drawing_outcome is NotStarted ==> self.forms_taken == 0
            },
            Some(OutcomeView::Success) => empty || self.carried_out(),
            None => true,
        }
    }

    /// What holds of an execution and its trail after every call.
    spec fn told(self, empty: bool) -> bool {
        let phase = self.state.phase;
        &&& self.state.consistent()
        &&& self.forms_taken == self.state.next_form
        &&& empty ==> phase is Terminal || phase is Done
        &&& phase is Begin || phase is AwaitingBegin ==> self.forms_taken == 0
        &&& phase is Begin || phase is AwaitingBegin || phase is BetweenForms
            || phase is AwaitingCommit ==> self.forms_evaluated == self.forms_taken
        &&& phase is AwaitingForm ==> self.forms_evaluated == self.forms_taken - 1
        &&& phase is AwaitingCommit ==> self.forms_taken == self.state.forms.len()
        &&& self.outcome_is_true(empty)
    }
}

proof fn lemma_call_is_told(trail: Trail, empty: bool, call: Call)
    requires
        trail.told(empty),
    ensures
        trail.after(call).told(empty),
        trail.after(call).state.forms == trail.state.forms,
{
}

proof fn lemma_calls_are_told(trail: Trail, empty: bool, calls: Seq<Call>)
    requires
        trail.told(empty),
    ensures
        trail.after_all(calls).told(empty),
        trail.after_all(calls).state.forms == trail.state.forms,
    decreases calls.len(),
{
    if calls.len() > 0 {
        lemma_calls_are_told(trail, empty, calls.drop_last());
        lemma_call_is_told(trail.after_all(calls.drop_last()), empty, calls.last());
    }
}

/// Whatever is asked of an execution, and in whatever order, its outcome is true. A
/// drawing counts as rolled back only after a rollback that succeeded, and as not started
/// only if no form was handed out. Success means that every form was evaluated and the
/// undo group committed with success, unless the source has no form.
pub proof fn law_outcome_is_true(
    source_name: Seq<char>,
    source: Seq<char>,
    forms: Seq<Result<FormSpan, ScanError>>,
    form_count: usize,
    calls: Seq<Call>,
)
    requires
        ExecutionView::fresh(source_name, source, forms, form_count).consistent(),
    ensures
        ({
            let start = ExecutionView::fresh(source_name, source, forms, form_count);
            let trail = Trail::start(start).after_all(calls);
            &&& trail.state.forms == forms
            &&& trail.outcome_is_true(form_count == 0)
        }),
{
    let start = ExecutionView::fresh(source_name, source, forms, form_count);
    lemma_calls_are_told(Trail::start(start), form_count == 0, calls);
}

} // verus!
