//! The service by which clients have documents executed on.
use bytes::Bytes;
use vstd::prelude::*;

use crate::documents;
use crate::documents::valid_document_id;
use crate::exec::diagnostic;
use crate::exec::outcome::{
    DrawingOutcome, ExecFailure, FailureView, OutcomeView,
};
use crate::exec::source;
use crate::exec::source::SourceScan;
use crate::exec::state;
use crate::exec::state::{Exec, ExecView};
use crate::rpc;
use crate::rpc::exec::{
    check_source_name, failure, first_request, reserved, scheduler_failure, terminal_response,
    validation_failure, FirstMessage, RequestedMode, TerminalResponse, TerminalView,
};
use crate::rpc::status;
use crate::rpc::status::{scheduler_error, Code, Status};
use crate::scheduler;
use crate::scheduler::model::AdmissionView;
use crate::scheduler::{
    admit_execution, ExecutionReservation, MutationScheduler, ReservationPool, Settled,
    EXECUTION_START_TIMEOUT, MAX_ADMITTED_EXECUTIONS,
};

pub use crate::rpc::drawing::drawing_path_status;
pub use crate::rpc::server::{start, stop};

verus! {

/// A request as a client sends it.
pub struct ExecutionRequest {
    pub document_id: String,
    pub mode: RequestedMode,
    pub source_name: String,
    pub source: Bytes,
}

/// A request whose document and source have names.
pub struct ValidatedExecutionRequest {
    pub document_id: String,
    pub mode: RequestedMode,
    pub source_name: String,
    pub source: Bytes,
}

/// What a client that asked for an execution is answered.
pub enum Executed {
    /// The execution was admitted; the response keeps a share of its place.
    Started {
        job_id: u64,
        settled: Option<Settled>,
        should_wake: bool,
        reservation: ExecutionReservation,
    },
    /// One last event follows, and then nothing.
    Terminal(TerminalResponse),
    Rejected(Status),
}

/// The document that a text stands for.
pub fn parse_document_id(id: &str) -> (parsed: Result<String, Status>)
    ensures
        match parsed {
            Ok(parsed) => documents::is_document_id(id@) && parsed@ == id@,
            Err(status) => !documents::is_document_id(id@) && status@ == status::plain(
                Code::InvalidArgument,
                "The document ID is invalid"@,
            ),
        },
{
    if valid_document_id(id) {
        Ok(id.to_owned())
    } else {
        Err(Status::invalid_argument("The document ID is invalid"))
    }
}

/// What is wrong with the names in a request.
pub open spec fn names_fault(request: ExecutionRequest) -> Option<FailureView> {
    if !documents::is_document_id(request.document_id@) {
        Some(rpc::exec::refused("The document ID is invalid"@))
    } else {
        rpc::exec::source_name_fault(request.source_name@)
    }
}

/// A request whose document and source have names, or the failure that it makes.
pub fn validate_execution_request(request: ExecutionRequest) -> (validated: Result<
    ValidatedExecutionRequest,
    ExecFailure,
>)
    ensures
        match validated {
            Ok(validated) => {
                &&& names_fault(request) is None
                &&& validated.document_id@ == request.document_id@
                &&& validated.mode == request.mode
                &&& validated.source_name@ == request.source_name@
                &&& validated.source == request.source
            },
            Err(failure) => names_fault(request) == Some(failure@),
        },
{
    if !valid_document_id(request.document_id.as_str()) {
        return Err(failure("The document ID is invalid".to_owned()));
    }
    if let Some(fault) = check_source_name(request.source_name.as_str()) {
        return Err(fault);
    }
    Ok(
        ValidatedExecutionRequest {
            document_id: request.document_id,
            mode: request.mode,
            source_name: request.source_name,
            source: request.source,
        },
    )
}

/// The failure that a request makes which cannot be carried out.
pub open spec fn request_failure(request: ExecutionRequest, scan: SourceScan) -> Option<FailureView> {
    match names_fault(request) {
        Some(fault) => Some(fault),
        None => if !(request.mode is Eval || request.mode is Exec) {
            Some(rpc::exec::refused("The execution mode must be eval or exec"@))
        } else {
            match state::validation_fault(
                rpc::exec::exec_mode(request.mode),
                source::bytes_contents(request.source),
                scan.form_count,
            ) {
                Some(error) => Some(rpc::exec::source_failure(error, request.source_name@)),
                None => None,
            }
        },
    }
}

/// The execution that a request asks for.
pub open spec fn requested_execution(request: ExecutionRequest, scan: SourceScan) -> ExecView {
    ExecView::fresh(
        rpc::exec::exec_mode(request.mode),
        request.source_name@,
        state::without_mark(source::bytes_contents(request.source)),
        scan.forms@,
        scan.form_count->Ok_0,
    )
}

/// The places with one share given back.
pub open spec fn given_back(shares: Seq<u64>, place: usize) -> Seq<u64> {
    shares.update(place as int, (shares[place as int] - 1) as u64)
}

/// Carries out what a client's first message asks for, on a place that was reserved
/// for it. `scan` is what the form scanner says of the source in the message.
pub fn execute(
    scheduler: &mut MutationScheduler,
    pool: &mut ReservationPool,
    reservation: Option<ExecutionReservation>,
    first: FirstMessage<ExecutionRequest>,
    scan: SourceScan,
    now: u64,
) -> (executed: Executed)
    requires
        old(scheduler).well_formed(),
        old(pool).well_formed(),
        reservation matches Some(reservation) ==> reservation.place < MAX_ADMITTED_EXECUTIONS && 0
            < old(pool)@[reservation.place as int] < u64::MAX,
        first matches FirstMessage::Request(request) ==> (state::source_fault(
            source::bytes_contents(request.source),
        ) is None ==> scan.fits(state::without_mark(source::bytes_contents(request.source)))),
        now + EXECUTION_START_TIMEOUT <= u64::MAX,
    ensures
        final(scheduler).well_formed(),
        final(pool).well_formed(),
        match reservation {
            None => {
                &&& executed matches Executed::Rejected(status) && status@ == status::plain(
                    Code::ResourceExhausted,
                    "Too many live execution streams"@,
                )
                &&& final(scheduler)@ == old(scheduler)@
                &&& final(pool)@ == old(pool)@
            },
            Some(reservation) => match first {
                FirstMessage::Request(request) => match request_failure(request, scan) {
                    Some(failure) => {
                        &&& executed matches Executed::Terminal(response) && response@ == (
                        TerminalView {
                            event: Some(rpc::exec::last_event(OutcomeView::Failure(failure))),
                            reservation: Some(reservation),
                        })
                        &&& final(scheduler)@ == old(scheduler)@
                        &&& final(pool)@ == old(pool)@
                    },
                    None => {
                        let execution = requested_execution(request, scan);
                        match old(scheduler)@.refusal(execution) {
                            Some(error) => {
                                &&& final(scheduler)@ == old(scheduler)@.declined()
                                &&& if error.internal() {
                                    &&& executed matches Executed::Rejected(status) && status@
                                        == status::refusal(error, None, None)
                                    &&& final(pool)@ == given_back(old(pool)@, reservation.place)
                                } else {
                                    &&& executed matches Executed::Terminal(response) && response@
                                        == (TerminalView {
                                        event: Some(
                                            rpc::exec::last_event(
                                                OutcomeView::Failure(
                                                    rpc::exec::error_failure(
                                                        error,
                                                        DrawingOutcome::NotStarted,
                                                        None,
                                                    ),
                                                ),
                                            ),
                                        ),
                                        reservation: Some(reservation),
                                    })
                                    &&& final(pool)@ == old(pool)@
                                }
                            },
                            None => {
                                &&& executed matches Executed::Started {
                                    job_id,
                                    settled,
                                    should_wake,
                                    reservation: kept,
                                } && {
                                    &&& kept == reservation
                                    &&& (
                                        final(scheduler)@,
                                        AdmissionView {
                                            job_id,
                                            settled: scheduler::settled_view(settled),
                                            should_wake,
                                        },
                                    ) == old(scheduler)@.admitted(
                                        request.document_id@,
                                        execution,
                                        reservation,
                                        now,
                                    )
                                }
                                &&& final(pool)@ == old(pool)@.update(
                                    reservation.place as int,
                                    (old(pool)@[reservation.place as int] + 1) as u64,
                                )
                            },
                        }
                    },
                },
                _ => {
                    &&& executed matches Executed::Rejected(status)
                        && rpc::exec::first_message_fault(first) == Some(status@)
                    &&& final(scheduler)@ == old(scheduler)@
                    &&& final(pool)@ == given_back(old(pool)@, reservation.place)
                },
            },
        },
{
    let ghost shares = pool@;
    let reservation = match reserved(reservation) {
        Ok(reservation) => reservation,
        Err(status) => {
            return Executed::Rejected(status);
        },
    };
    let request = match first_request(first) {
        Ok(request) => request,
        Err(status) => {
            pool.release(reservation);
            return Executed::Rejected(status);
        },
    };
    let request = match validate_execution_request(request) {
        Ok(request) => request,
        Err(failure) => {
            return Executed::Terminal(terminal_response(reservation, failure));
        },
    };
    let mode = match request.mode.mode() {
        Some(mode) => mode,
        None => {
            return Executed::Terminal(
                terminal_response(
                    reservation,
                    failure("The execution mode must be eval or exec".to_owned()),
                ),
            );
        },
    };
    let source_name = request.source_name.as_str().to_owned();
    let execution = match Exec::new(mode, request.source_name, request.source, scan) {
        Ok(execution) => execution,
        Err(error) => {
            return Executed::Terminal(
                terminal_response(reservation, validation_failure(error, source_name)),
            );
        },
    };
    let shared = pool.share(&reservation);
    match admit_execution(scheduler, request.document_id, execution, shared, now) {
        Ok(admission) => Executed::Started {
            job_id: admission.job_id,
            settled: admission.settled,
            should_wake: admission.should_wake,
            reservation,
        },
        Err(refused) => {
            pool.release(refused.reservation);
            assert(pool@ =~= shares);
            if refused.error.is_internal() {
                let status = scheduler_error(&refused.error, None, None);
                pool.release(reservation);
                Executed::Rejected(status)
            } else {
                let failure = scheduler_failure(&refused.error, DrawingOutcome::NotStarted, None);
                Executed::Terminal(terminal_response(reservation, failure))
            }
        },
    }
}

/// A request is carried out exactly where its document and its source have names, its mode
/// is known and its source can be executed; these are looked at in this order.
pub proof fn law_requests_are_carried_out(request: ExecutionRequest, scan: SourceScan)
    ensures
        ({
            let failure = request_failure(request, scan);
            let known = documents::is_document_id(request.document_id@);
            let fault = rpc::exec::source_name_fault(request.source_name@);
            let moded = request.mode is Eval || request.mode is Exec;
            let error = state::validation_fault(
                requested_execution(request, scan).mode,
                source::bytes_contents(request.source),
                scan.form_count,
            );
            &&& failure is None <==> known && fault is None && moded && error is None
            &&& !known ==> failure is Some && failure->0.drawing_outcome is NotStarted
                && diagnostic::told_text(failure->0.message, "The document ID is invalid"@)
            &&& known && fault is Some ==> failure == fault
            &&& known && fault is None && !moded ==> failure is Some
                && failure->0.drawing_outcome is NotStarted && diagnostic::told_text(
                failure->0.message,
                "The execution mode must be eval or exec"@,
            )
            &&& known && fault is None && moded && error is Some ==> failure == Some(
                rpc::exec::source_failure(error->0, request.source_name@),
            )
            &&& requested_execution(request, scan).mode is Eval <==> request.mode is Eval
            &&& requested_execution(request, scan).source_name == request.source_name@
            &&& requested_execution(request, scan).forms == scan.forms@
        }),
{
    diagnostic::law_diagnostic_keeps_its_text("The document ID is invalid"@);
    diagnostic::law_diagnostic_keeps_its_text("The execution mode must be eval or exec"@);
}

} // verus!
