//! The output of an execution and the bridge over which AutoLISP reaches it.
use vstd::prelude::*;

use crate::execution::output::OutputSink;

verus! {

pub struct ExecIo {
    pub output: OutputSink,
    pub bridge: ValueBridgeState,
}

/// The bridge is open for at most one kind of output at a time. Each opening has
/// a generation of its own, and one port may claim it.
#[derive(Clone, Copy, Debug, PartialEq, Eq, Structural)]
pub struct ValueBridgeState {
    pub generation: u64,
    pub open_kind: Option<ValueOutputKind>,
    pub port_active: bool,
    pub port_claimed: bool,
    pub failure: Option<ValueBridgeFailure>,
}

/// A claim on one opening of the bridge.
#[derive(Debug, PartialEq, Eq, Structural)]
pub struct ValueOutputLease {
    pub generation: u64,
    pub kind: ValueOutputKind,
}

#[derive(Clone, Copy, Debug, PartialEq, Eq, Structural)]
pub enum ValueOutputKind {
    Form,
    EvalValue,
}

#[derive(Clone, Copy, Debug, PartialEq, Eq, Structural)]
pub enum ValueBridgeFailure {
    InvalidSequence,
    LimitExceeded,
    OutputFinished,
    PostCommitCancelled,
    Abandoned,
    MissingValue,
}

impl ValueBridgeState {
    pub open spec fn closed() -> ValueBridgeState {
        ValueBridgeState {
            generation: 0,
            open_kind: None,
            port_active: false,
            port_claimed: false,
            failure: None,
        }
    }

    /// Notes a failure, unless one is noted already.
    pub open spec fn failed(self, failure: ValueBridgeFailure) -> ValueBridgeState {
        ValueBridgeState {
            failure: if self.failure is Some {
                self.failure
            } else {
                Some(failure)
            },
            ..self
        }
    }

    pub open spec fn next_generation(self) -> u64 {
        if self.generation == u64::MAX {
            1
        } else {
            (self.generation + 1) as u64
        }
    }

    /// The bridge opened anew; an opening left over counts as abandoned.
    pub open spec fn begun(self, kind: ValueOutputKind) -> ValueBridgeState {
        let noted = if self.open_kind is Some || self.port_active {
            self.failed(ValueBridgeFailure::Abandoned)
        } else {
            self
        };
        ValueBridgeState {
            generation: self.next_generation(),
            open_kind: Some(kind),
            port_active: false,
            port_claimed: false,
            failure: noted.failure,
        }
    }

    /// Whether a port may claim this opening.
    pub open spec fn claimable(self, kind: ValueOutputKind) -> bool {
        &&& self.open_kind == Some(kind)
        &&& self.failure is None
        &&& !self.port_active
        &&& !self.port_claimed
    }

    pub open spec fn claimed(self) -> ValueBridgeState {
        ValueBridgeState { port_active: true, port_claimed: true, ..self }
    }

    /// The bridge at its close, with what went wrong still noted.
    pub open spec fn settled(self, kind: ValueOutputKind) -> ValueBridgeState {
        let kept = if self.open_kind == Some(kind) {
            self
        } else {
            self.failed(ValueBridgeFailure::InvalidSequence)
        };
        let released = if self.port_active {
            kept.failed(ValueBridgeFailure::Abandoned)
        } else {
            kept
        };
        let complete = if kind == ValueOutputKind::EvalValue && !self.port_claimed {
            released.failed(ValueBridgeFailure::MissingValue)
        } else {
            released
        };
        ValueBridgeState { open_kind: None, port_active: false, ..complete }
    }

    /// The closed bridge: the failure has been handed to whoever closed it.
    pub open spec fn closed_after(self, kind: ValueOutputKind) -> ValueBridgeState {
        ValueBridgeState { failure: None, ..self.settled(kind) }
    }

    /// Whether the claim still holds and nothing has gone wrong.
    pub open spec fn grants(self, lease: ValueOutputLease) -> bool {
        &&& self.open_kind == Some(lease.kind)
        &&& self.generation == lease.generation
        &&& self.port_active
        &&& self.failure is None
    }

    /// The claim given back; one on an earlier opening has no effect.
    pub open spec fn released(
        self,
        lease: ValueOutputLease,
        failure: Option<ValueBridgeFailure>,
    ) -> ValueBridgeState {
        if self.generation != lease.generation || self.open_kind != Some(lease.kind) {
            self
        } else {
            let noted = match failure {
                Some(failure) => self.failed(failure),
                None => self,
            };
            ValueBridgeState { port_active: false, ..noted }
        }
    }

    pub fn new() -> (state: ValueBridgeState)
        ensures
            state == ValueBridgeState::closed(),
    {
        ValueBridgeState {
            generation: 0,
            open_kind: None,
            port_active: false,
            port_claimed: false,
            failure: None,
        }
    }

    fn note_failure(&mut self, failure: ValueBridgeFailure)
        ensures
            *final(self) == old(self).failed(failure),
    {
        if self.failure.is_none() {
            self.failure = Some(failure);
        }
    }

    fn open_for(&self, kind: ValueOutputKind) -> (result: bool)
        ensures
            result == (self.open_kind == Some(kind)),
    {
        match self.open_kind {
            Some(open) => open == kind,
            None => false,
        }
    }
}

/// An opening is claimed at most once: after a claim none succeeds, whatever is
/// released, until the bridge is opened anew.
pub proof fn law_one_claim_per_opening(
    bridge: ValueBridgeState,
    kind: ValueOutputKind,
    lease: ValueOutputLease,
    failure: Option<ValueBridgeFailure>,
)
    requires
        bridge.claimable(kind),
    ensures
        !bridge.claimed().claimable(kind),
        !bridge.claimed().released(lease, failure).claimable(kind),
{
}

/// A lease of an earlier opening cannot touch the present one, as long as the
/// generations have not come round to it again.
pub proof fn law_stale_lease_has_no_effect(
    bridge: ValueBridgeState,
    kind: ValueOutputKind,
    lease: ValueOutputLease,
    failure: Option<ValueBridgeFailure>,
)
    requires
        lease.generation == bridge.generation,
        bridge.generation != u64::MAX,
    ensures
        !bridge.begun(kind).grants(lease),
        bridge.begun(kind).released(lease, failure) == bridge.begun(kind),
{
}

/// The first failure of an opening is the one that closing it reports.
pub proof fn law_first_failure_is_reported(
    bridge: ValueBridgeState,
    first: ValueBridgeFailure,
    second: ValueBridgeFailure,
    kind: ValueOutputKind,
)
    requires
        bridge.failure is None,
    ensures
        bridge.failed(first).failed(second).settled(kind).failure == Some(first),
{
}

impl ExecIo {
    pub fn new(output: OutputSink) -> (io: ExecIo)
        ensures
            io.output == output,
            io.bridge == ValueBridgeState::closed(),
    {
        ExecIo { output, bridge: ValueBridgeState::new() }
    }

    /// Opens the bridge for one kind of output.
    pub fn begin_value_output(&mut self, kind: ValueOutputKind)
        ensures
            final(self).bridge == old(self).bridge.begun(kind),
            final(self).output == old(self).output,
    {
        if self.bridge.open_kind.is_some() || self.bridge.port_active {
            self.bridge.note_failure(ValueBridgeFailure::Abandoned);
        }
        self.bridge.generation =
        if self.bridge.generation == u64::MAX {
            1
        } else {
            self.bridge.generation + 1
        };
        self.bridge.open_kind = Some(kind);
        self.bridge.port_active = false;
        self.bridge.port_claimed = false;
    }

    /// Claims the opening for a port.
    pub fn acquire_value_output(&mut self, kind: ValueOutputKind) -> (lease: Option<
        ValueOutputLease,
    >)
        ensures
            final(self).output == old(self).output,
            lease is Some <==> old(self).bridge.claimable(kind),
            lease matches Some(lease) ==> {
                &&& lease == (ValueOutputLease { generation: old(self).bridge.generation, kind })
                &&& final(self).bridge == old(self).bridge.claimed()
            },
            lease is None ==> final(self).bridge == old(self).bridge,
    {
        if !self.bridge.open_for(kind) || self.bridge.failure.is_some() || self.bridge.port_active
            || self.bridge.port_claimed {
            return None;
        }
        self.bridge.port_active = true;
        self.bridge.port_claimed = true;
        Some(ValueOutputLease { generation: self.bridge.generation, kind })
    }

    /// Closes the bridge and reports what went wrong since it was opened.
    pub fn close_value_output(&mut self, kind: ValueOutputKind) -> (failure: Option<
        ValueBridgeFailure,
    >)
        ensures
            final(self).output == old(self).output,
            final(self).bridge == old(self).bridge.closed_after(kind),
            failure == old(self).bridge.settled(kind).failure,
    {
        if !self.bridge.open_for(kind) {
            self.bridge.note_failure(ValueBridgeFailure::InvalidSequence);
        }
        self.bridge.open_kind = None;
        if self.bridge.port_active {
            self.bridge.note_failure(ValueBridgeFailure::Abandoned);
        }
        self.bridge.port_active = false;
        if kind == ValueOutputKind::EvalValue && !self.bridge.port_claimed {
            self.bridge.note_failure(ValueBridgeFailure::MissingValue);
        }
        self.bridge.failure.take()
    }
}

impl ValueOutputLease {
    /// Whether the claim still holds.
    pub fn is_open(&self, io: &ExecIo) -> (result: bool)
        ensures
            result == io.bridge.grants(*self),
    {
        io.bridge.open_for(self.kind) && io.bridge.generation == self.generation
            && io.bridge.port_active && io.bridge.failure.is_none()
    }

    /// Gives the claim back, with what went wrong under it.
    pub fn release(self, io: &mut ExecIo, failure: Option<ValueBridgeFailure>)
        ensures
            final(io).output == old(io).output,
            final(io).bridge == old(io).bridge.released(self, failure),
    {
        if io.bridge.generation != self.generation || !io.bridge.open_for(self.kind) {
            return ;
        }
        if let Some(failure) = failure {
            io.bridge.note_failure(failure);
        }
        io.bridge.port_active = false;
    }
}

impl ValueBridgeFailure {
    pub open spec fn text(self) -> Seq<char> {
        match self {
            ValueBridgeFailure::InvalidSequence => {
                "the AutoLISP output bridge emitted an invalid value sequence"@
            },
            ValueBridgeFailure::LimitExceeded => {
                "the AutoLISP output bridge exceeded its structural limit"@
            },
            ValueBridgeFailure::OutputFinished => {
                "execution output ended while AutoLISP was still producing it"@
            },
            ValueBridgeFailure::PostCommitCancelled => {
                "eval result output was cancelled after commit"@
            },
            ValueBridgeFailure::Abandoned => {
                "the AutoLISP output bridge abandoned an unfinished value"@
            },
            ValueBridgeFailure::MissingValue => {
                "the AutoLISP evaluator did not emit its result value"@
            },
        }
    }

    pub fn message(self) -> (message: &'static str)
        ensures
            message@ == self.text(),
    {
        match self {
            ValueBridgeFailure::InvalidSequence => {
                "the AutoLISP output bridge emitted an invalid value sequence"
            },
            ValueBridgeFailure::LimitExceeded => {
                "the AutoLISP output bridge exceeded its structural limit"
            },
            ValueBridgeFailure::OutputFinished => {
                "execution output ended while AutoLISP was still producing it"
            },
            ValueBridgeFailure::PostCommitCancelled => {
                "eval result output was cancelled after commit"
            },
            ValueBridgeFailure::Abandoned => {
                "the AutoLISP output bridge abandoned an unfinished value"
            },
            ValueBridgeFailure::MissingValue => {
                "the AutoLISP evaluator did not emit its result value"
            },
        }
    }
}

/// The bridge opens for one kind of output, under a generation that the opening before did
/// not have, with no port on it. What was still open counts as abandoned.
pub proof fn law_bridge_opens_for_one_kind(
    bridge: ValueBridgeState,
    kind: ValueOutputKind,
    other: ValueOutputKind,
)
    ensures
        ({
            let open = bridge.begun(kind);
            let left = bridge.open_kind is Some || bridge.port_active;
            &&& open.open_kind == Some(kind)
            &&& open.generation != bridge.generation
            &&& !open.port_active
            &&& !open.port_claimed
            &&& bridge.failure is Some ==> open.failure == bridge.failure
            &&& bridge.failure is None && left ==> open.failure == Some(
                ValueBridgeFailure::Abandoned,
            )
            &&& bridge.failure is None && !left ==> open.failure is None
            &&& bridge.failure is None && !left ==> open.claimable(kind)
            &&& other != kind ==> !open.claimable(other)
        }),
{
}

/// A port that claims an opening holds it until it gives it back, and loses it when
/// something goes wrong or the bridge is opened anew.
pub proof fn law_claim_holds_until_given_back(
    bridge: ValueBridgeState,
    kind: ValueOutputKind,
    lease: ValueOutputLease,
    failure: ValueBridgeFailure,
)
    requires
        bridge.claimable(kind),
        lease.kind == kind,
        lease.generation == bridge.generation,
    ensures
        bridge.claimed().grants(lease),
        !bridge.claimed().released(lease, None).grants(lease),
        bridge.claimed().released(lease, None).failure is None,
        bridge.claimed().released(lease, Some(failure)).failure == Some(failure),
        !bridge.claimed().failed(failure).grants(lease),
        !bridge.claimed().begun(kind).grants(lease),
{
}

/// Closing the bridge reports what went wrong: what was noted first; else that it was open
/// for something else; else that a port was left on it; and for the value of an evaluation
/// that no port came for it. Where nothing did, it reports nothing. After that the bridge is
/// closed and nothing is noted any more.
pub proof fn law_closing_reports_what_went_wrong(bridge: ValueBridgeState, kind: ValueOutputKind)
    ensures
        ({
            let found = bridge.settled(kind).failure;
            let after = bridge.closed_after(kind);
            let right = bridge.open_kind == Some(kind);
            let missing = kind is EvalValue && !bridge.port_claimed;
            &&& bridge.failure is Some ==> found == bridge.failure
            &&& bridge.failure is None && !right ==> found == Some(
                ValueBridgeFailure::InvalidSequence,
            )
            &&& bridge.failure is None && right && bridge.port_active ==> found == Some(
                ValueBridgeFailure::Abandoned,
            )
            &&& bridge.failure is None && right && !bridge.port_active && missing ==> found
                == Some(ValueBridgeFailure::MissingValue)
            &&& bridge.failure is None && right && !bridge.port_active && !missing
                ==> found is None
            &&& after.failure is None
            &&& after.open_kind is None
            &&& !after.port_active
            &&& after.generation == bridge.generation
        }),
{
}

} // verus!
