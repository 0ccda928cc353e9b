//! The server that clients reach the plugin by.
use vstd::prelude::*;

use crate::scheduler;
use crate::scheduler::job::Settled;
use crate::scheduler::model;
use crate::scheduler::model::{Refusal, SchedulerView};
use crate::scheduler::MutationScheduler;

verus! {

/// How long the server rests before it is set up again, in milliseconds.
pub const RESTART_BACKOFF: u64 = 100;

/// Whether there is a server thread.
#[derive(Debug)]
pub struct ServerSlot {
    occupied: bool,
}

impl View for ServerSlot {
    type V = bool;

    closed spec fn view(&self) -> bool {
        self.occupied
    }
}

/// What starting comes to.
#[derive(Clone, Copy, Debug, PartialEq, Eq, Structural)]
pub enum StartStep {
    /// The server runs already.
    Running,
    /// A server that has ended is to be joined, and a new one set up.
    Replace,
    /// A server is to be set up.
    Spawn,
}

/// What a new server thread reports.
#[derive(Debug, PartialEq, Eq)]
pub enum StartupReport {
    Started,
    Failed(String),
    Vanished,
}

/// What stopping comes to: those who wait are told, and the server thread is joined where
/// there is one.
pub struct StopStep {
    pub settled: Vec<Settled>,
    pub shut_down: bool,
}

impl ServerSlot {
    pub fn new() -> (slot: ServerSlot)
        ensures
            !slot@,
    {
        ServerSlot { occupied: false }
    }
}

/// Takes operations again, and says what is to be done about the server.
pub fn start(scheduler: &mut MutationScheduler, slot: &mut ServerSlot, is_running: bool) -> (step:
    StartStep)
    requires
        old(scheduler).well_formed(),
    ensures
        final(scheduler).well_formed(),
        final(scheduler)@ == (SchedulerView { stopping: false, ..old(scheduler)@ }),
        step == if old(slot)@ && is_running {
            StartStep::Running
        } else if old(slot)@ {
            StartStep::Replace
        } else {
            StartStep::Spawn
        },
        final(slot)@ == (old(slot)@ && is_running),
{
    scheduler::start(scheduler);
    if slot.occupied && is_running {
        return StartStep::Running;
    }
    if slot.occupied {
        slot.occupied = false;
        return StartStep::Replace;
    }
    StartStep::Spawn
}

/// Takes the report of a new server thread.
pub fn finish_start(slot: &mut ServerSlot, report: StartupReport) -> (result: Result<(), String>)
    ensures
        match (report, result) {
            (StartupReport::Started, Ok(_)) => final(slot)@,
            (StartupReport::Failed(error), Err(shown)) => shown@ == error@ && final(slot)@ == old(
                slot,
            )@,
            (StartupReport::Vanished, Err(shown)) => shown@
                == "server thread stopped during startup"@ && final(slot)@ == old(slot)@,
            _ => false,
        },
{
    match report {
        StartupReport::Started => {
            slot.occupied = true;
            Ok(())
        },
        StartupReport::Failed(error) => Err(error),
        StartupReport::Vanished => Err("server thread stopped during startup".to_owned()),
    }
}

/// Stops taking operations, and gives the server thread up.
pub fn stop(scheduler: &mut MutationScheduler, slot: &mut ServerSlot) -> (step: StopStep)
    requires
        old(scheduler).well_formed(),
    ensures
        final(scheduler).well_formed(),
        final(scheduler)@ == old(scheduler)@.stopped(),
        scheduler::all_well_formed(step.settled@),
        scheduler::settled_views(step.settled@) == model::turned_away(
            old(scheduler)@.pending,
            Refusal::PluginStopping,
        ),
        step.shut_down == old(slot)@,
        !final(slot)@,
{
    let settled = scheduler::stop(scheduler);
    let shut_down = slot.occupied;
    slot.occupied = false;
    StopStep { settled, shut_down }
}

/// What happened to the server.
#[derive(Debug, PartialEq, Eq)]
pub enum ServeEvent {
    /// The endpoint could not be set up, with the reason.
    EndpointFailed(String),
    EndpointReady,
    ServingEnded,
    StopRequested,
    RestElapsed,
}

/// What the server does next.
#[derive(Debug, PartialEq, Eq)]
pub enum ServeAction {
    SetUp,
    /// Say that the server runs, and serve.
    ReportAndServe,
    Serve,
    Rest,
    /// Say why the server does not run, and end.
    ReportFailure(String),
    End,
}

#[verifier::ext_equal]
pub enum ServeActionView {
    SetUp,
    ReportAndServe,
    Serve,
    Rest,
    ReportFailure(Seq<char>),
    End,
}

impl View for ServeAction {
    type V = ServeActionView;

    open spec fn view(&self) -> ServeActionView {
        match self {
            ServeAction::SetUp => ServeActionView::SetUp,
            ServeAction::ReportAndServe => ServeActionView::ReportAndServe,
            ServeAction::Serve => ServeActionView::Serve,
            ServeAction::Rest => ServeActionView::Rest,
            ServeAction::ReportFailure(error) => ServeActionView::ReportFailure(error@),
            ServeAction::End => ServeActionView::End,
        }
    }
}

/// Whether the server was up once: until then a failure ends it, and afterwards it is set
/// up again.
#[derive(Debug)]
pub struct ServeState {
    reported: bool,
}

impl View for ServeState {
    type V = bool;

    closed spec fn view(&self) -> bool {
        self.reported
    }
}

/// What the server does after an event.
pub open spec fn serve_action(reported: bool, event: ServeEvent) -> ServeActionView {
    match event {
        ServeEvent::EndpointFailed(error) => if reported {
            ServeActionView::Rest
        } else {
            ServeActionView::ReportFailure("could not create the RPC endpoint: "@ + error@)
        },
        ServeEvent::EndpointReady => if reported {
            ServeActionView::Serve
        } else {
            ServeActionView::ReportAndServe
        },
        ServeEvent::ServingEnded => ServeActionView::Rest,
        ServeEvent::StopRequested => ServeActionView::End,
        ServeEvent::RestElapsed => ServeActionView::SetUp,
    }
}

impl ServeState {
    pub fn new() -> (state: ServeState)
        ensures
            !state@,
    {
        ServeState { reported: false }
    }

    /// What the server does after an event.
    pub fn next(&mut self, event: ServeEvent) -> (action: ServeAction)
        ensures
            action@ == serve_action(old(self)@, event),
            final(self)@ == (old(self)@ || event is EndpointReady || event is EndpointFailed),
    {
        match event {
            ServeEvent::EndpointFailed(error) => {
                if self.reported {
                    ServeAction::Rest
                } else {
                    self.reported = true;
                    let mut message = "could not create the RPC endpoint: ".to_owned();
                    message.push_str(error.as_str());
                    ServeAction::ReportFailure(message)
                }
            },
            ServeEvent::EndpointReady => {
                if self.reported {
                    ServeAction::Serve
                } else {
                    self.reported = true;
                    ServeAction::ReportAndServe
                }
            },
            ServeEvent::ServingEnded => ServeAction::Rest,
            ServeEvent::StopRequested => ServeAction::End,
            ServeEvent::RestElapsed => ServeAction::SetUp,
        }
    }
}

/// Whoever started the server hears of it once: after the first report, none follows.
pub proof fn law_startup_is_reported_once(event: ServeEvent)
    ensures
        !(serve_action(true, event) is ReportFailure),
        !(serve_action(true, event) is ReportAndServe),
{
}

/// A server that stops being served is set up again after a rest, and so is one that was up
/// once and whose endpoint fails; one that never came up ends with the reason. It ends when
/// it is told to.
pub proof fn law_server_is_set_up_again(reported: bool, event: ServeEvent)
    ensures
        event is StopRequested <==> serve_action(reported, event) is End,
        event is ServingEnded ==> serve_action(reported, event) is Rest,
        event is RestElapsed <==> serve_action(reported, event) is SetUp,
        event is EndpointReady && reported ==> serve_action(reported, event) is Serve,
        event is EndpointReady && !reported ==> serve_action(reported, event) is ReportAndServe,
        event matches ServeEvent::EndpointFailed(error) ==> {
            &&& reported ==> serve_action(reported, event) is Rest
            &&& !reported ==> (serve_action(reported, event) matches ServeActionView::ReportFailure(
                told,
            ) && error@.is_suffix_of(told) && "could not create the RPC endpoint: "@.is_prefix_of(
                told,
            ))
        },
{
    if let ServeEvent::EndpointFailed(error) = event {
        let front = "could not create the RPC endpoint: "@;
        let told = front + error@;
        assert(told.take(front.len() as int) =~= front);
        assert(told.skip(front.len() as int) =~= error@);
    }
}

} // verus!
