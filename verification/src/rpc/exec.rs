//! The conversation with a client that asked for an execution.
use bytes::Bytes;
use vstd::prelude::*;

use super::status;
use super::status::{scheduler_error, Code, Status, StatusView};
use crate::exec::diagnostic;
use crate::exec::diagnostic::bounded_diagnostic;
use crate::exec::outcome;
use crate::exec::outcome::{
    DrawingErrorKind, DrawingOutcome, ExecFailure, ExecMode, ExecOutcome, FailureView,
    LocationView, OutcomeView, SourceLocation, SourceValidationError,
};
use crate::exec::source;
use crate::exec::source::SourceScan;
use crate::exec::state;
use crate::exec::state::{Exec, ExecView};
use crate::ids::DrawingId;
use crate::limits::MAX_SOURCE_NAME_BYTES;
use crate::scheduler::error::{Error, ErrorView};
use crate::scheduler::{
    CancelResult, ExecutionAdmission, ExecutionReservation, RefusedExecution, ReservationPool,
    Settled, MAX_ADMITTED_EXECUTIONS,
};
use crate::text;
use crate::text::{byte_count, push_decimal};

verus! {

/// How long the first message may take, in milliseconds.
pub const FIRST_MESSAGE_TIMEOUT: u64 = 5000;

/// How a client asks for an execution to be carried out.
#[derive(Clone, Copy, Debug, PartialEq, Eq, Structural)]
pub enum RequestedMode {
    Unspecified,
    Eval,
    Exec,
    /// A number that stands for nothing known.
    Unknown(i32),
}

/// A request as a client sends it.
pub struct ExecRequest {
    pub drawing_id: u32,
    pub mode: RequestedMode,
    pub source_name: String,
    pub source: Bytes,
}

/// A request that can be carried out.
pub struct ValidatedExecRequest {
    pub drawing_id: DrawingId,
    pub mode: ExecMode,
    pub source_name: String,
    pub source: Bytes,
}

/// What the first message of a client turned out to be.
pub enum FirstMessage<R> {
    TimedOut,
    Failed(Status),
    Ended,
    Other,
    Request(R),
}

/// What became of a request to cancel, as clients see it.
#[derive(Clone, Copy, Debug, PartialEq, Eq, Structural)]
pub enum CancelDisposition {
    Accepted,
    TooLate,
}

/// A place in a source, as clients see it.
#[derive(Debug, PartialEq, Eq)]
pub struct RpcLocation {
    pub source_name: String,
    pub line: u64,
    pub column: u64,
}

/// A failure as clients see it.
#[derive(Debug, PartialEq, Eq)]
pub struct RpcFailure {
    pub message: String,
    pub form_index: Option<u64>,
    pub location: Option<RpcLocation>,
    pub drawing_outcome: DrawingOutcome,
    pub drawing_error: DrawingErrorKind,
}

/// The end of an execution, as clients see it.
#[derive(Debug, PartialEq, Eq)]
pub enum Finished {
    Success,
    Cancelled,
    Failure(RpcFailure),
}

/// What a client is sent.
#[derive(Debug, PartialEq, Eq)]
pub enum ServerEvent {
    Accepted,
    Output(String),
    CancelAcknowledgement(CancelDisposition),
    Finished(Finished),
}

#[verifier::ext_equal]
pub struct RpcLocationView {
    pub source_name: Seq<char>,
    pub line: u64,
    pub column: u64,
}

#[verifier::ext_equal]
pub struct RpcFailureView {
    pub message: Seq<char>,
    pub form_index: Option<u64>,
    pub location: Option<RpcLocationView>,
    pub drawing_outcome: DrawingOutcome,
    pub drawing_error: DrawingErrorKind,
}

#[verifier::ext_equal]
pub enum FinishedView {
    Success,
    Cancelled,
    Failure(RpcFailureView),
}

#[verifier::ext_equal]
pub enum ServerEventView {
    Accepted,
    Output(Seq<char>),
    CancelAcknowledgement(CancelDisposition),
    Finished(FinishedView),
}

impl View for RpcFailure {
    type V = RpcFailureView;

    open spec fn view(&self) -> RpcFailureView {
        RpcFailureView {
            message: self.message@,
            form_index: self.form_index,
            location: match self.location {
                Some(location) => Some(
                    RpcLocationView {
                        source_name: location.source_name@,
                        line: location.line,
                        column: location.column,
                    },
                ),
                None => None,
            },
            drawing_outcome: self.drawing_outcome,
            drawing_error: self.drawing_error,
        }
    }
}

impl View for Finished {
    type V = FinishedView;

    open spec fn view(&self) -> FinishedView {
        match self {
            Finished::Success => FinishedView::Success,
            Finished::Cancelled => FinishedView::Cancelled,
            Finished::Failure(failure) => FinishedView::Failure(failure@),
        }
    }
}

impl View for ServerEvent {
    type V = ServerEventView;

    open spec fn view(&self) -> ServerEventView {
        match self {
            ServerEvent::Accepted => ServerEventView::Accepted,
            ServerEvent::Output(chunk) => ServerEventView::Output(chunk@),
            ServerEvent::CancelAcknowledgement(disposition) => {
                ServerEventView::CancelAcknowledgement(*disposition)
            },
            ServerEvent::Finished(finished) => ServerEventView::Finished(finished@),
        }
    }
}

/// A failure before anything was done to the drawing.
pub open spec fn refused(message: Seq<char>) -> FailureView {
    FailureView::plain(diagnostic::bounded_text(message, false), DrawingOutcome::NotStarted)
}

/// A failure before anything was done to the drawing.
pub fn failure(message: String) -> (failure: ExecFailure)
    ensures
        failure@ == refused(message@),
{
    ExecFailure::not_started(bounded_diagnostic(message))
}

/// What is wrong with the name of a source.
pub open spec fn source_name_fault(source_name: Seq<char>) -> Option<FailureView> {
    if source_name.len() == 0 {
        Some(refused("The source name is required"@))
    } else if text::byte_len(source_name) > MAX_SOURCE_NAME_BYTES {
        Some(refused("The source name exceeds the 4 KiB limit"@))
    } else {
        None
    }
}

/// The failure that a request makes which cannot be carried out: the drawing is looked at
/// first, then the name of the source, then the mode.
pub open spec fn request_fault(
    drawing_id: u32,
    source_name: Seq<char>,
    mode: RequestedMode,
) -> Option<FailureView> {
    if !(0 < drawing_id < 65536) {
        Some(refused("The drawing ID is invalid"@))
    } else if source_name_fault(source_name) is Some {
        source_name_fault(source_name)
    } else if !(mode is Eval || mode is Exec) {
        Some(refused("The execution mode must be eval or exec"@))
    } else {
        None
    }
}

/// What is wrong with the name of a source.
pub fn check_source_name(source_name: &str) -> (fault: Option<ExecFailure>)
    ensures
        match fault {
            Some(fault) => source_name_fault(source_name@) == Some(fault@),
            None => source_name_fault(source_name@) is None,
        },
{
    if source_name.is_empty() {
        Some(failure("The source name is required".to_owned()))
    } else if byte_count(source_name) > MAX_SOURCE_NAME_BYTES {
        Some(failure("The source name exceeds the 4 KiB limit".to_owned()))
    } else {
        None
    }
}

impl RequestedMode {
    /// The mode, where it is known.
    pub fn mode(&self) -> (mode: Option<ExecMode>)
        ensures
            match mode {
                Some(ExecMode::Eval) => self is Eval,
                Some(ExecMode::Exec) => self is Exec,
                None => !(self is Eval) && !(self is Exec),
            },
    {
        match self {
            RequestedMode::Eval => Some(ExecMode::Eval),
            RequestedMode::Exec => Some(ExecMode::Exec),
            RequestedMode::Unspecified | RequestedMode::Unknown(_) => None,
        }
    }
}

impl ValidatedExecRequest {
    /// A request that can be carried out, or the failure that it makes.
    pub fn try_from_request(request: ExecRequest) -> (validated: Result<
        ValidatedExecRequest,
        ExecFailure,
    >)
        ensures
            match validated {
                Ok(validated) => {
                    &&& request_fault(
                        request.drawing_id,
                        request.source_name@,
                        request.mode,
                    ) is None
                    &&& validated.drawing_id@ == request.drawing_id
                    &&& validated.mode is Eval <==> request.mode is Eval
                    &&& validated.source_name@ == request.source_name@
                    &&& source::bytes_contents(validated.source) == source::bytes_contents(
                        request.source,
                    )
                },
                Err(failure) => request_fault(
                    request.drawing_id,
                    request.source_name@,
                    request.mode,
                ) == Some(failure@),
            },
    {
        let drawing_id = match DrawingId::from_number(request.drawing_id) {
            Some(drawing_id) => drawing_id,
            None => {
                return Err(failure("The drawing ID is invalid".to_owned()));
            },
        };
        if let Some(fault) = check_source_name(request.source_name.as_str()) {
            return Err(fault);
        }
        let mode = match request.mode.mode() {
            Some(mode) => mode,
            None => {
                return Err(failure("The execution mode must be eval or exec".to_owned()));
            },
        };
        Ok(
            ValidatedExecRequest {
                drawing_id,
                mode,
                source_name: request.source_name,
                source: request.source,
            },
        )
    }
}

/// The failure that a source makes which cannot be executed.
pub open spec fn source_failure(error: SourceValidationError, source_name: Seq<char>) -> FailureView {
    match error {
        SourceValidationError::SourceTooLarge => refused("The source exceeds the 4 MiB limit"@),
        SourceValidationError::InvalidUtf8 => refused("The source is not valid UTF-8"@),
        SourceValidationError::NullCharacter => refused(
            "The source contains U+0000, which AutoLISP cannot represent"@,
        ),
        SourceValidationError::ExpectedOneForm { actual } => refused(
            "eval requires exactly one top-level form; found "@ + text::decimal(actual as nat),
        ),
        SourceValidationError::Scan(error) => FailureView {
            message: error.message@,
            form_index: None,
            location: Some(
                LocationView { source_name, line: error.line, column: error.column },
            ),
            drawing_outcome: DrawingOutcome::NotStarted,
            drawing_error: None,
        },
    }
}

/// The failure that a source makes which cannot be executed.
pub fn validation_failure(error: SourceValidationError, source_name: String) -> (result: ExecFailure)
    ensures
        result@ == source_failure(error, source_name@),
{
    match error {
        SourceValidationError::SourceTooLarge => failure(
            "The source exceeds the 4 MiB limit".to_owned(),
        ),
        SourceValidationError::InvalidUtf8 => failure("The source is not valid UTF-8".to_owned()),
        SourceValidationError::NullCharacter => failure(
            "The source contains U+0000, which AutoLISP cannot represent".to_owned(),
        ),
        SourceValidationError::ExpectedOneForm { actual } => {
            let mut message = "eval requires exactly one top-level form; found ".to_owned();
            push_decimal(&mut message, actual as u64);
            failure(message)
        },
        SourceValidationError::Scan(error) => {
            let location = SourceLocation::from_scan_error(source_name, &error);
            ExecFailure {
                message: error.message,
                form_index: None,
                location: Some(location),
                drawing_outcome: DrawingOutcome::NotStarted,
                drawing_error: None,
            }
        },
    }
}

/// An error as a failure of the execution.
pub open spec fn error_failure(
    error: ErrorView,
    drawing_outcome: DrawingOutcome,
    drawing_error: Option<DrawingErrorKind>,
) -> FailureView {
    FailureView {
        message: diagnostic::bounded_text(error.message(), false),
        form_index: None,
        location: None,
        drawing_outcome,
        drawing_error,
    }
}

/// An error as a failure of the execution, with what is known of the drawing.
pub fn scheduler_failure(
    error: &Error,
    drawing_outcome: DrawingOutcome,
    drawing_error: Option<DrawingErrorKind>,
) -> (failure: ExecFailure)
    ensures
        failure@ == error_failure(error@, drawing_outcome, drawing_error),
{
    ExecFailure {
        message: bounded_diagnostic(error.message()),
        form_index: None,
        location: None,
        drawing_outcome,
        drawing_error,
    }
}

/// A failure as clients see it.
pub open spec fn shown_failure(failure: FailureView) -> RpcFailureView {
    RpcFailureView {
        message: diagnostic::bounded_text(failure.message, false),
        form_index: match failure.form_index {
            Some(index) => Some(index as u64),
            None => None,
        },
        location: match failure.location {
            Some(location) => Some(
                RpcLocationView {
                    source_name: location.source_name,
                    line: location.line as u64,
                    column: location.column as u64,
                },
            ),
            None => None,
        },
        drawing_outcome: failure.drawing_outcome,
        drawing_error: match failure.drawing_error {
            Some(kind) => kind,
            None => DrawingErrorKind::Unspecified,
        },
    }
}

/// A failure as clients see it.
pub fn rpc_failure(failure: ExecFailure) -> (shown: RpcFailure)
    ensures
        shown@ == shown_failure(failure@),
{
    RpcFailure {
        message: bounded_diagnostic(failure.message),
        form_index: match failure.form_index {
            Some(index) => Some(index as u64),
            None => None,
        },
        location: match failure.location {
            Some(location) => Some(
                RpcLocation {
                    source_name: location.source_name,
                    line: location.line as u64,
                    column: location.column as u64,
                },
            ),
            None => None,
        },
        drawing_outcome: failure.drawing_outcome,
        drawing_error: match failure.drawing_error {
            Some(kind) => kind,
            None => DrawingErrorKind::Unspecified,
        },
    }
}

/// The last event of an execution.
pub open spec fn last_event(outcome: OutcomeView) -> ServerEventView {
    ServerEventView::Finished(
        match outcome {
            OutcomeView::Success => FinishedView::Success,
            OutcomeView::Cancelled => FinishedView::Cancelled,
            OutcomeView::Failure(failure) => FinishedView::Failure(shown_failure(failure)),
        },
    )
}

/// The last event of an execution.
pub fn finished_event(outcome: ExecOutcome) -> (event: ServerEvent)
    ensures
        event@ == last_event(outcome@),
{
    ServerEvent::Finished(
        match outcome {
            ExecOutcome::Success => Finished::Success,
            ExecOutcome::Cancelled => Finished::Cancelled,
            ExecOutcome::Failure(failure) => Finished::Failure(rpc_failure(failure)),
        },
    )
}

/// The refusal of a first message that holds no request.
pub open spec fn first_message_fault<R>(first: FirstMessage<R>) -> Option<StatusView> {
    match first {
        FirstMessage::TimedOut => Some(
            status::plain(Code::DeadlineExceeded, "The execution request was not received"@),
        ),
        FirstMessage::Failed(status) => Some(status@),
        FirstMessage::Ended => Some(
            status::plain(Code::InvalidArgument, "The first execution message is required"@),
        ),
        FirstMessage::Other => Some(
            status::plain(
                Code::InvalidArgument,
                "The first execution message must be a request"@,
            ),
        ),
        FirstMessage::Request(_) => None,
    }
}

/// The request that the first message of a client holds.
pub fn first_request<R>(first: FirstMessage<R>) -> (request: Result<R, Status>)
    ensures
        match request {
            Ok(request) => first == FirstMessage::Request(request),
            Err(status) => first_message_fault(first) == Some(status@),
        },
{
    match first {
        FirstMessage::TimedOut => Err(
            Status::new(Code::DeadlineExceeded, "The execution request was not received"),
        ),
        FirstMessage::Failed(status) => Err(status),
        FirstMessage::Ended => Err(
            Status::invalid_argument("The first execution message is required"),
        ),
        FirstMessage::Other => Err(
            Status::invalid_argument("The first execution message must be a request"),
        ),
        FirstMessage::Request(request) => Ok(request),
    }
}

/// The place that an execution takes, or the refusal where there is none.
pub fn reserved(reservation: Option<ExecutionReservation>) -> (reserved: Result<
    ExecutionReservation,
    Status,
>)
    ensures
        match (reservation, reserved) {
            (Some(given), Ok(taken)) => given == taken,
            (None, Err(status)) => status@ == status::plain(
                Code::ResourceExhausted,
                "Too many live execution streams"@,
            ),
            _ => false,
        },
{
    match reservation {
        Some(reservation) => Ok(reservation),
        None => Err(Status::new(Code::ResourceExhausted, "Too many live execution streams")),
    }
}

/// What a client that asked for an execution is answered.
pub enum Answer {
    /// The execution was admitted.
    Started { job_id: u64, settled: Option<Settled>, should_wake: bool },
    /// One last event follows, and then nothing.
    Terminal { response: TerminalResponse },
    /// The request is refused, and the place is free again.
    Refused { status: Status, reservation: ExecutionReservation },
}

/// What a client is answered once the scheduler has decided: where the plugin is at
/// fault the request is refused, and where the request is, that is the outcome of the
/// execution.
pub fn admission_answer(
    admission: Result<ExecutionAdmission, RefusedExecution>,
    kind: Option<DrawingErrorKind>,
    drawing_id: Option<DrawingId>,
) -> (answer: Answer)
    ensures
        match (admission, answer) {
            (Ok(admission), Answer::Started { job_id, settled, should_wake }) => {
                &&& job_id == admission.job_id
                &&& settled == admission.settled
                &&& should_wake == admission.should_wake
            },
            (Err(refused), Answer::Refused { status, reservation }) => {
                &&& refused.error@.internal()
                &&& status@ == status::refusal(refused.error@, kind, drawing_id)
                &&& reservation == refused.reservation
            },
            (Err(refused), Answer::Terminal { response }) => {
                &&& !refused.error@.internal()
                &&& response@.reservation == Some(refused.reservation)
                &&& response@.event == Some(
                    last_event(
                        OutcomeView::Failure(
                            error_failure(refused.error@, DrawingOutcome::NotStarted, kind),
                        ),
                    ),
                )
            },
            _ => false,
        },
{
    match admission {
        Ok(admission) => Answer::Started {
            job_id: admission.job_id,
            settled: admission.settled,
            should_wake: admission.should_wake,
        },
        Err(refused) => {
            if refused.error.is_internal() {
                Answer::Refused {
                    status: scheduler_error(&refused.error, kind, drawing_id),
                    reservation: refused.reservation,
                }
            } else {
                let failure = scheduler_failure(&refused.error, DrawingOutcome::NotStarted, kind);
                Answer::Terminal { response: terminal_response(refused.reservation, failure) }
            }
        },
    }
}

/// What a first message comes to before the scheduler is asked.
pub enum Prepared {
    /// The request is refused, and the place is free again.
    Rejected(Status),
    /// One last event follows, and then nothing.
    Terminal(TerminalResponse),
    /// The execution that the scheduler is to admit.
    Ready { reservation: ExecutionReservation, drawing_id: DrawingId, execution: Exec },
}

/// The mode that an execution takes.
pub open spec fn exec_mode(mode: RequestedMode) -> ExecMode {
    if mode is Eval {
        ExecMode::Eval
    } else {
        ExecMode::Exec
    }
}

/// The failure that a request makes which cannot be carried out: the request itself is
/// looked at first, then its source.
pub open spec fn exec_request_failure(request: ExecRequest, scan: SourceScan) -> Option<
    FailureView,
> {
    match request_fault(request.drawing_id, request.source_name@, request.mode) {
        Some(fault) => Some(fault),
        None => match state::validation_fault(
            exec_mode(request.mode),
            source::bytes_contents(request.source),
            scan.form_count,
        ) {
            Some(error) => Some(source_failure(error, request.source_name@)),
            None => None,
        },
    }
}

/// Makes the execution that a client's first message asks for, on a place that was
/// reserved for it. `scan` is what the form scanner says of the source in the message.
pub fn prepare_execution(
    pool: &mut ReservationPool,
    reservation: Option<ExecutionReservation>,
    first: FirstMessage<ExecRequest>,
    scan: SourceScan,
) -> (prepared: Prepared)
    requires
        old(pool).well_formed(),
        reservation matches Some(reservation) ==> reservation.place < MAX_ADMITTED_EXECUTIONS && 0
            < old(pool)@[reservation.place as int],
        first matches FirstMessage::Request(request) ==> (state::source_fault(
            source::bytes_contents(request.source),
        ) is None ==> scan.fits(state::without_mark(source::bytes_contents(request.source)))),
    ensures
        final(pool).well_formed(),
        match reservation {
            None => {
                &&& prepared matches Prepared::Rejected(status) && status@ == status::plain(
                    Code::ResourceExhausted,
                    "Too many live execution streams"@,
                )
                &&& final(pool)@ == old(pool)@
            },
            Some(reservation) => match first {
                FirstMessage::Request(request) => {
                    &&& final(pool)@ == old(pool)@
                    &&& match exec_request_failure(request, scan) {
                        Some(failure) => prepared matches Prepared::Terminal(response) && response@
                            == (TerminalView {
                            event: Some(last_event(OutcomeView::Failure(failure))),
                            reservation: Some(reservation),
                        }),
                        None => prepared matches Prepared::Ready {
                            reservation: kept,
                            drawing_id,
                            execution,
                        } && {
                            &&& kept == reservation
                            &&& drawing_id@ == request.drawing_id
                            &&& execution.well_formed()
                            &&& execution@ == ExecView::fresh(
                                exec_mode(request.mode),
                                request.source_name@,
                                state::without_mark(source::bytes_contents(request.source)),
                                scan.forms@,
                                scan.form_count->Ok_0,
                            )
                        },
                    }
                },
                _ => {
                    &&& prepared matches Prepared::Rejected(status) && first_message_fault(first)
                        == Some(status@)
                    &&& final(pool)@ == old(pool)@.update(
                        reservation.place as int,
                        (old(pool)@[reservation.place as int] - 1) as u64,
                    )
                },
            },
        },
{
    let reservation = match reserved(reservation) {
        Ok(reservation) => reservation,
        Err(status) => {
            return Prepared::Rejected(status);
        },
    };
    let request = match first_request(first) {
        Ok(request) => request,
        Err(status) => {
            pool.release(reservation);
            return Prepared::Rejected(status);
        },
    };
    let request = match ValidatedExecRequest::try_from_request(request) {
        Ok(request) => request,
        Err(failure) => {
            return Prepared::Terminal(terminal_response(reservation, failure));
        },
    };
    let source_name = request.source_name.as_str().to_owned();
    match Exec::new(request.mode, request.source_name, request.source, scan) {
        Ok(execution) => Prepared::Ready {
            reservation,
            drawing_id: request.drawing_id,
            execution,
        },
        Err(error) => Prepared::Terminal(
            terminal_response(reservation, validation_failure(error, source_name)),
        ),
    }
}

/// A response of one event, which holds its place until that is sent.
pub struct TerminalResponse {
    event: Option<ServerEvent>,
    reservation: Option<ExecutionReservation>,
}

#[verifier::ext_equal]
pub struct TerminalView {
    pub event: Option<ServerEventView>,
    pub reservation: Option<ExecutionReservation>,
}

pub open spec fn event_view(event: Option<ServerEvent>) -> Option<ServerEventView> {
    match event {
        Some(event) => Some(event@),
        None => None,
    }
}

impl View for TerminalResponse {
    type V = TerminalView;

    closed spec fn view(&self) -> TerminalView {
        TerminalView { event: event_view(self.event), reservation: self.reservation }
    }
}

/// A response that says why an execution did not take place.
pub fn terminal_response(reservation: ExecutionReservation, failure: ExecFailure) -> (response:
    TerminalResponse)
    ensures
        response@.event == Some(last_event(OutcomeView::Failure(failure@))),
        response@.reservation == Some(reservation),
{
    TerminalResponse {
        event: Some(finished_event(ExecOutcome::Failure(failure))),
        reservation: Some(reservation),
    }
}

impl TerminalResponse {
    /// The event, and the place that is free again with it.
    pub fn next(&mut self) -> (next: (Option<ServerEvent>, Option<ExecutionReservation>))
        ensures
            event_view(next.0) == old(self)@.event,
            next.1 == old(self)@.reservation,
            final(self)@ == (TerminalView { event: None, reservation: None }),
    {
        let event = self.event.take();
        let reservation = self.reservation.take();
        (event, reservation)
    }
}

/// How far a response has come.
#[derive(Clone, Copy, Debug, PartialEq, Eq, Structural)]
pub enum ResponsePhase {
    SendAccepted,
    RelayOutput,
    AwaitCompletion,
    Done,
}

/// A response to a client, event by event.
#[derive(Debug)]
pub struct ExecuteResponse {
    phase: ResponsePhase,
    control_open: bool,
}

#[verifier::ext_equal]
pub struct ResponseView {
    pub phase: ResponsePhase,
    pub control_open: bool,
}

impl View for ExecuteResponse {
    type V = ResponseView;

    closed spec fn view(&self) -> ResponseView {
        ResponseView { phase: self.phase, control_open: self.control_open }
    }
}

/// What a response waits for. Where two things are waited for, what the client says is
/// looked at first.
#[derive(Clone, Copy, Debug, PartialEq, Eq, Structural)]
pub enum Awaited {
    Nothing,
    Output { control: bool },
    Completion { control: bool },
    End,
}

/// What came in for a response.
pub enum ResponseEvent {
    Begin,
    Control(CancelDisposition),
    ControlFailed(Status),
    ControlClosed,
    Chunk(String),
    OutputEnded,
    Completed(ExecOutcome),
}

/// What a response does.
#[derive(Debug)]
pub enum ResponseAction {
    Send(ServerEvent),
    Fail(Status),
    Wait,
}

#[verifier::ext_equal]
pub enum ResponseActionView {
    Send(ServerEventView),
    Fail(StatusView),
    Wait,
}

impl View for ResponseAction {
    type V = ResponseActionView;

    open spec fn view(&self) -> ResponseActionView {
        match self {
            ResponseAction::Send(event) => ResponseActionView::Send(event@),
            ResponseAction::Fail(status) => ResponseActionView::Fail(status@),
            ResponseAction::Wait => ResponseActionView::Wait,
        }
    }
}

impl ResponseView {
    pub open spec fn awaited(self) -> Awaited {
        match self.phase {
            ResponsePhase::SendAccepted => Awaited::Nothing,
            ResponsePhase::RelayOutput => Awaited::Output { control: self.control_open },
            ResponsePhase::AwaitCompletion => Awaited::Completion { control: self.control_open },
            ResponsePhase::Done => Awaited::End,
        }
    }

    /// What came in is what was waited for.
    pub open spec fn expects(self, event: ResponseEvent) -> bool {
        match event {
            ResponseEvent::Begin => self.phase is SendAccepted,
            ResponseEvent::Control(_)
            | ResponseEvent::ControlFailed(_)
            | ResponseEvent::ControlClosed => self.control_open && (self.phase is RelayOutput
                || self.phase is AwaitCompletion),
            ResponseEvent::Chunk(_) | ResponseEvent::OutputEnded => self.phase is RelayOutput,
            ResponseEvent::Completed(_) => self.phase is AwaitCompletion,
        }
    }

    /// After an event came in.
    pub open spec fn next(self, event: ResponseEvent) -> (ResponseView, ResponseActionView) {
        match event {
            ResponseEvent::Begin => (
                ResponseView { phase: ResponsePhase::RelayOutput, ..self },
                ResponseActionView::Send(ServerEventView::Accepted),
            ),
            ResponseEvent::Control(disposition) => (
                self,
                ResponseActionView::Send(ServerEventView::CancelAcknowledgement(disposition)),
            ),
            ResponseEvent::ControlFailed(status) => (self, ResponseActionView::Fail(status@)),
            ResponseEvent::ControlClosed => (
                ResponseView { control_open: false, ..self },
                ResponseActionView::Wait,
            ),
            ResponseEvent::Chunk(chunk) => (
                self,
                ResponseActionView::Send(ServerEventView::Output(chunk@)),
            ),
            ResponseEvent::OutputEnded => (
                ResponseView { phase: ResponsePhase::AwaitCompletion, ..self },
                ResponseActionView::Wait,
            ),
            ResponseEvent::Completed(outcome) => (
                ResponseView { phase: ResponsePhase::Done, ..self },
                ResponseActionView::Send(last_event(outcome@)),
            ),
        }
    }
}

impl ExecuteResponse {
    pub fn new() -> (response: ExecuteResponse)
        ensures
            response@ == (ResponseView { phase: ResponsePhase::SendAccepted, control_open: true }),
    {
        ExecuteResponse { phase: ResponsePhase::SendAccepted, control_open: true }
    }

    /// What the response waits for.
    pub fn awaited(&self) -> (awaited: Awaited)
        ensures
            awaited == self@.awaited(),
    {
        match self.phase {
            ResponsePhase::SendAccepted => Awaited::Nothing,
            ResponsePhase::RelayOutput => Awaited::Output { control: self.control_open },
            ResponsePhase::AwaitCompletion => Awaited::Completion { control: self.control_open },
            ResponsePhase::Done => Awaited::End,
        }
    }

    /// Takes what came in, and says what to do.
    pub fn next_event(&mut self, event: ResponseEvent) -> (action: ResponseAction)
        requires
            old(self)@.expects(event),
        ensures
            (final(self)@, action@) == old(self)@.next(event),
    {
        match event {
            ResponseEvent::Begin => {
                self.phase = ResponsePhase::RelayOutput;
                ResponseAction::Send(ServerEvent::Accepted)
            },
            ResponseEvent::Control(disposition) => self.handle_control(Some(Ok(disposition))),
            ResponseEvent::ControlFailed(status) => self.handle_control(Some(Err(status))),
            ResponseEvent::ControlClosed => self.handle_control(None),
            ResponseEvent::Chunk(chunk) => ResponseAction::Send(ServerEvent::Output(chunk)),
            ResponseEvent::OutputEnded => {
                self.phase = ResponsePhase::AwaitCompletion;
                ResponseAction::Wait
            },
            ResponseEvent::Completed(outcome) => {
                self.phase = ResponsePhase::Done;
                ResponseAction::Send(finished_event(outcome))
            },
        }
    }

    /// Takes what the client's side of the conversation came to.
    fn handle_control(&mut self, control: Option<Result<CancelDisposition, Status>>) -> (action:
        ResponseAction)
        ensures
            match control {
                Some(Ok(disposition)) => action@ == ResponseActionView::Send(
                    ServerEventView::CancelAcknowledgement(disposition),
                ) && final(self)@ == old(self)@,
                Some(Err(status)) => action@ == ResponseActionView::Fail(status@) && final(self)@
                    == old(self)@,
                None => action@ is Wait && final(self)@ == (ResponseView {
                    control_open: false,
                    ..old(self)@
                }),
            },
    {
        match control {
            Some(Ok(disposition)) => ResponseAction::Send(
                ServerEvent::CancelAcknowledgement(disposition),
            ),
            Some(Err(status)) => ResponseAction::Fail(status),
            None => {
                self.control_open = false;
                ResponseAction::Wait
            },
        }
    }
}

/// A response starts with the word that the execution was accepted, which is not sent
/// again; and after the outcome nothing follows.
pub proof fn law_response_has_one_beginning_and_one_end(
    response: ResponseView,
    event: ResponseEvent,
    later: ResponseEvent,
)
    requires
        response.expects(event),
    ensures
        response.next(event).1 == ResponseActionView::Send(ServerEventView::Accepted)
            <==> response.phase is SendAccepted,
        !(response.next(event).0.phase is SendAccepted),
        response.next(event).1 matches ResponseActionView::Send(ServerEventView::Finished(_)) ==> {
            &&& response.next(event).0.awaited() is End
            &&& !response.next(event).0.expects(later)
        },
        event is Completed ==> response.next(event).1 matches ResponseActionView::Send(
            ServerEventView::Finished(_),
        ),
{
}

/// All output is sent before the outcome: the outcome is waited for only when the output
/// has ended, and no output is taken then.
pub proof fn law_output_comes_before_the_outcome(response: ResponseView, event: ResponseEvent)
    ensures
        response.phase is AwaitCompletion ==> !(response.expects(event) && (event is Chunk
            || event is OutputEnded)),
        response.phase is RelayOutput ==> !(response.expects(event) && event is Completed),
        response.expects(event) && !(event is OutputEnded) && response.phase is RelayOutput
            ==> response.next(event).0.phase is RelayOutput,
{
}

/// A message that a client sends after its request.
#[derive(Clone, Copy, Debug, PartialEq, Eq, Structural)]
pub enum ClientMessage {
    Cancel,
    Other,
}

/// What is done about a message.
#[derive(Debug)]
pub enum ControlStep {
    /// The execution is to be cancelled.
    Cancel,
    /// It was already.
    Ignore,
    /// The conversation is over.
    Reject(Status),
}

/// What a client has said so far.
#[derive(Debug)]
pub struct ControlReader {
    answered: Option<CancelDisposition>,
}

impl View for ControlReader {
    type V = Option<CancelDisposition>;

    closed spec fn view(&self) -> Option<CancelDisposition> {
        self.answered
    }
}

impl ControlReader {
    pub fn new() -> (reader: ControlReader)
        ensures
            reader@ is None,
    {
        ControlReader { answered: None }
    }

    /// What is done about a message: a second request to cancel is not passed on, and
    /// anything else ends the conversation.
    pub fn read(&self, message: ClientMessage) -> (step: ControlStep)
        ensures
            match message {
                ClientMessage::Cancel => if self@ is Some {
                    step is Ignore
                } else {
                    step is Cancel
                },
                ClientMessage::Other => step matches ControlStep::Reject(status) && status@
                    == status::plain(
                    Code::InvalidArgument,
                    "Only Cancel is valid after the execution request"@,
                ),
            },
    {
        match message {
            ClientMessage::Cancel => if self.answered.is_some() {
                ControlStep::Ignore
            } else {
                ControlStep::Cancel
            },
            ClientMessage::Other => ControlStep::Reject(
                Status::invalid_argument("Only Cancel is valid after the execution request"),
            ),
        }
    }

    /// What the client is told of its request to cancel. An execution that is not found
    /// is over.
    pub fn cancelled(&mut self, result: CancelResult) -> (told: Result<CancelDisposition, Status>)
        ensures
            match result {
                CancelResult::Accepted => told == Ok::<CancelDisposition, Status>(
                    CancelDisposition::Accepted,
                ) && final(self)@ == Some(CancelDisposition::Accepted),
                CancelResult::TooLate | CancelResult::NotFound => told == Ok::<
                    CancelDisposition,
                    Status,
                >(CancelDisposition::TooLate) && final(self)@ == Some(CancelDisposition::TooLate),
                CancelResult::Unavailable => {
                    &&& told matches Err(status) && status@ == status::plain(
                        Code::Internal,
                        "Execution cancellation state is unavailable"@,
                    )
                    &&& final(self)@ == old(self)@
                },
            },
    {
        let disposition = match result {
            CancelResult::Accepted => CancelDisposition::Accepted,
            CancelResult::TooLate | CancelResult::NotFound => CancelDisposition::TooLate,
            CancelResult::Unavailable => {
                return Err(
                    Status::new(Code::Internal, "Execution cancellation state is unavailable"),
                );
            },
        };
        self.answered = Some(disposition);
        Ok(disposition)
    }
}

} // verus!
