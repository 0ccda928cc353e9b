use acadctl_plugin::doc::{DocRegistry, NativeDocSnapshot};
use acadctl_plugin::drawing::DrawingRegistry;
use acadctl_plugin::exec::outcome::{
    DrawingErrorKind, DrawingOutcome, ExecFailure, ExecMode, ExecOutcome, SourceLocation,
    SourceValidationError,
};
use acadctl_plugin::exec::source::{FormSpan, ScanError, SourceScan};
use acadctl_plugin::execution::output::ChunkPoll;
use acadctl_plugin::ids::{DocId, DrawingId};
use acadctl_plugin::limits::{MAX_EXECUTION_SOURCE_BYTES, MAX_SOURCE_NAME_BYTES};
use acadctl_plugin::native::{
    NativeActionKind, NativeActionResult, NativeActionResultKind, NativeDocumentSnapshot,
};
use acadctl_plugin::rpc::doc::{parse_document_id, rpc_doc};
use acadctl_plugin::rpc::drawing::{
    capture_resolution, capture_warnings, drawing_path_status, history_error, rpc_drawing,
    DrawingPathError, ResolutionPolicy,
};
use acadctl_plugin::rpc::exec::{
    admission_answer, check_source_name, failure, finished_event, first_request,
    prepare_execution, reserved, rpc_failure, scheduler_failure, terminal_response, validation_failure, Answer, Awaited,
    CancelDisposition, ClientMessage, ControlReader, ControlStep, ExecRequest, ExecuteResponse,
    Finished, FirstMessage, Prepared, RequestedMode, ResponseAction, ResponseEvent, RpcFailure, ServerEvent,
    ValidatedExecRequest,
};
use acadctl_plugin::rpc::server::{
    finish_start, ServeAction, ServeEvent, ServeState, ServerSlot, StartStep, StartupReport,
};
use acadctl_plugin::rpc::status::{parse_drawing_id, scheduler_error, Code, Detail, Status};
use acadctl_plugin::rpc_server;
use acadctl_plugin::rpc_server::{
    execute, validate_execution_request, Executed, ExecutionRequest,
};
use acadctl_plugin::scheduler;
use acadctl_plugin::scheduler::{
    save_outcome, try_reserve_execution, CancelResult, Error, ExecutionReservation,
    MutationScheduler, NativeFailure, RefusedExecution, ReservationPool, Submission,
    MAX_ADMITTED_EXECUTIONS,
};
use bytes::Bytes;

/// A small form scanner: atoms, strings, comments and lists.
fn scan(source: &str) -> SourceScan {
    let text = source.strip_prefix('\u{feff}').unwrap_or(source);
    let mut forms: Vec<Result<FormSpan, ScanError>> = Vec::new();
    let mut depth = 0usize;
    let mut start: Option<(usize, usize, usize)> = None;
    let (mut line, mut column) = (1usize, 1usize);
    let (mut in_comment, mut in_text) = (false, false);
    for (offset, ch) in text.char_indices() {
        let delimiter = ch.is_whitespace() || ch == ';' || ch == '(' || ch == ')';
        if in_comment {
            in_comment = ch != '\n';
        } else if in_text {
            in_text = ch != '"';
        } else {
            if depth == 0 && delimiter {
                if let Some((byte_start, line, column)) = start.take() {
                    forms.push(Ok(FormSpan { byte_start, byte_end: offset, line, column }));
                }
            }
            if ch == ';' {
                in_comment = true;
            } else if !ch.is_whitespace() {
                if start.is_none() {
                    start = Some((offset, line, column));
                }
                in_text = ch == '"';
                if ch == '(' {
                    depth += 1;
                } else if ch == ')' {
                    depth -= 1;
                    if depth == 0 {
                        let (byte_start, line, column) = start.take().unwrap();
                        forms.push(Ok(FormSpan { byte_start, byte_end: offset + 1, line, column }));
                    }
                }
            }
        }
        if ch == '\n' {
            line += 1;
            column = 1;
        } else {
            column += 1;
        }
    }
    if depth > 0 || in_text {
        let error = || ScanError { message: "the list is not closed".into(), line, column };
        forms.push(Err(error()));
        return SourceScan { form_count: Err(error()), forms };
    }
    if let Some((byte_start, line, column)) = start {
        forms.push(Ok(FormSpan { byte_start, byte_end: text.len(), line, column }));
    }
    SourceScan { form_count: Ok(forms.len()), forms }
}

fn message(text: &str) -> Detail {
    Detail::Message(text.into())
}

fn document(document_token: usize, modified: bool, read_only: bool) -> NativeDocumentSnapshot {
    NativeDocumentSnapshot {
        document_token,
        database_token: document_token + 100,
        name: format!("/tmp/house-{document_token}.dwg"),
        named: true,
        modified,
        read_only,
        active: modified,
    }
}

fn failed(message: &str) -> NativeFailure {
    NativeFailure { status: 7, detail: message.into() }
}

#[test]
fn scheduler_failures_keep_their_typed_drawing_error() {
    let failure = scheduler_failure(
        &Error::DocumentNotFound("36C8".into()),
        DrawingOutcome::NotStarted,
        Some(DrawingErrorKind::NotOpen),
    );
    let failure = rpc_failure(failure);

    assert_eq!(failure.drawing_error, DrawingErrorKind::NotOpen);
    assert_eq!(failure.drawing_outcome, DrawingOutcome::NotStarted);
}

#[test]
fn readiness_timeout_is_a_structured_deadline() {
    let id = DrawingId::from_hex("D0C0").unwrap();
    let status = scheduler_error(
        &Error::NotQuiescent,
        Some(DrawingErrorKind::ReadinessTimedOut),
        Some(id),
    );

    assert_eq!(status.code, Code::DeadlineExceeded);
    assert_eq!(status.message(), "drawing operation failed");
    assert_eq!(
        status.detail,
        Detail::Drawing { kind: DrawingErrorKind::ReadinessTimedOut, drawing_id: Some(id) }
    );
}

#[test]
fn terminal_execution_response_holds_capacity_until_observed() {
    let mut pool = ReservationPool::new();
    let mut reservations = Vec::new();
    while let Some(reservation) = try_reserve_execution(&mut pool) {
        reservations.push(reservation);
    }
    assert!(!reservations.is_empty());
    let reservation = reservations.pop().unwrap();

    let mut response =
        terminal_response(reservation, ExecFailure::not_started("invalid request".to_owned()));

    assert!(try_reserve_execution(&mut pool).is_none());
    let (event, reservation) = response.next();
    assert!(event.is_some());
    pool.release(reservation.unwrap());
    assert!(try_reserve_execution(&mut pool).is_some());
    let (event, reservation) = response.next();
    assert!(event.is_none());
    assert!(reservation.is_none());
}

#[test]
fn errors_are_refused_with_their_kind_and_text() {
    let refused = [
        (Error::DocumentNotFound("2az789".into()), Code::NotFound),
        (Error::Stopped, Code::Internal),
        (Error::OpenNotPublished, Code::Internal),
        (Error::ScheduleFailed(1), Code::FailedPrecondition),
        (Error::Dirty("2az789".into()), Code::FailedPrecondition),
        (Error::NotQuiescent, Code::FailedPrecondition),
    ];
    for (error, code) in refused {
        let status = scheduler_error(&error, None, None);
        assert_eq!(status.code, code);
        assert_eq!(status.message(), error.message());
        assert_eq!(code == Code::Internal, error.is_internal());
    }
    let id = DrawingId::new(7);
    let status = scheduler_error(
        &Error::Dirty("0007".into()),
        Some(DrawingErrorKind::UnsavedChanges),
        id,
    );
    assert_eq!(status.code, Code::FailedPrecondition);
    assert_eq!(
        status.detail,
        Detail::Drawing { kind: DrawingErrorKind::UnsavedChanges, drawing_id: id }
    );
}

#[test]
fn a_history_step_in_doubt_is_told_as_such() {
    let status = history_error(&Error::DocumentContextRestoreFailed(failed("x")), None, None);
    assert_eq!(status.code, Code::Internal);
    assert_eq!(
        status.detail,
        Detail::Drawing { kind: DrawingErrorKind::HistoryOutcomeUnknown, drawing_id: None }
    );
    let status = history_error(&Error::DocumentGone, None, None);
    assert_eq!(status.code, Code::FailedPrecondition);
    assert_eq!(status.message(), "The document is no longer open");
}

#[test]
fn paths_and_identifiers_are_refused_with_their_text() {
    let texts = [
        (DrawingPathError::NotDwg, "Only DWG drawings can be opened"),
        (DrawingPathError::NotAbsolute, "The drawing path must be absolute"),
        (DrawingPathError::TooLong, "The drawing path exceeds the 32 KiB limit"),
        (DrawingPathError::NotFile, "The drawing path is invalid"),
        (DrawingPathError::Resolve, "The drawing path is invalid"),
        (DrawingPathError::InvalidUtf8, "The drawing path is invalid"),
        (DrawingPathError::AlreadyExists, "The drawing path is invalid"),
    ];
    for (error, text) in texts {
        assert_eq!(
            drawing_path_status(error),
            Status { code: Code::InvalidArgument, detail: message(text) }
        );
    }
    assert_eq!(parse_drawing_id(0x36c8).unwrap().value(), 0x36c8);
    for id in [0, 65536] {
        assert_eq!(
            parse_drawing_id(id),
            Err(Status {
                code: Code::InvalidArgument,
                detail: message("The drawing ID is invalid"),
            })
        );
    }
    assert_eq!(parse_document_id("36C8").unwrap().value(), 0x36c8);
    let refused = Status {
        code: Code::InvalidArgument,
        detail: message("The document ID is invalid"),
    };
    assert_eq!(parse_document_id("36c8"), Err(refused));
    assert_eq!(rpc_server::parse_document_id("2az789").unwrap(), "2az789");
    assert!(rpc_server::parse_document_id("2AZ789").is_err());
}

#[test]
fn listed_documents_are_shown_to_clients() {
    let mut drawings = DrawingRegistry::new();
    drawings.replace_snapshot(vec![document(1, true, false)]);
    let listed = drawings.list();
    let shown = rpc_drawing(&listed[0]);
    assert_eq!(shown.id, listed[0].id.value());
    assert_eq!(shown.display_name, "house-1.dwg");
    assert_eq!(shown.file_path.as_deref(), Some("/tmp/house-1.dwg"));
    assert!(shown.modified);
    assert!(!shown.read_only);
    assert!(shown.active);

    let mut unnamed: NativeDocSnapshot = document(2, false, true);
    unnamed.name = "Drawing1.dwg".into();
    unnamed.named = false;
    let mut documents = DocRegistry::new();
    documents.replace_snapshot(vec![unnamed]);
    let listed = documents.list();
    let id: DocId = listed[0].id;
    let shown = rpc_doc(documents.list().remove(0));
    assert_eq!(shown.id, id.value());
    assert_eq!(shown.display_name, "Drawing1");
    assert_eq!(shown.file_path, None);
    assert!(!shown.modified);
    assert!(shown.read_only);
}

#[test]
fn a_view_is_shown_within_its_limits() {
    assert_eq!(capture_resolution(false), (ResolutionPolicy::Default, 512));
    assert_eq!(capture_resolution(true), (ResolutionPolicy::Wide, 1024));
    assert!(capture_warnings(false).is_empty());
    assert_eq!(
        capture_warnings(true),
        vec![
            "Realistic visual style may capture only the viewport background on some drawings."
                .to_owned()
        ]
    );
}

fn exec_request(drawing_id: u32, mode: RequestedMode, source_name: &str) -> ExecRequest {
    ExecRequest {
        drawing_id,
        mode,
        source_name: source_name.into(),
        source: Bytes::from_static(b"(form)"),
    }
}

fn refusal(request: ExecRequest) -> String {
    let Err(failure) = ValidatedExecRequest::try_from_request(request) else {
        panic!("the request is valid");
    };
    assert_eq!(failure.drawing_outcome, DrawingOutcome::NotStarted);
    failure.message
}

#[test]
fn requests_are_checked_in_order() {
    let long = "n".repeat(MAX_SOURCE_NAME_BYTES + 1);
    assert_eq!(
        refusal(exec_request(0, RequestedMode::Unspecified, "")),
        "The drawing ID is invalid"
    );
    assert_eq!(
        refusal(exec_request(1, RequestedMode::Unspecified, "")),
        "The source name is required"
    );
    assert_eq!(
        refusal(exec_request(1, RequestedMode::Unspecified, &long)),
        "The source name exceeds the 4 KiB limit"
    );
    assert_eq!(
        refusal(exec_request(1, RequestedMode::Unspecified, "a.lsp")),
        "The execution mode must be eval or exec"
    );
    assert_eq!(
        refusal(exec_request(1, RequestedMode::Unknown(7), "a.lsp")),
        "The execution mode must be eval or exec"
    );
    assert!(check_source_name(&long[1..]).is_none());
    let Ok(valid) =
        ValidatedExecRequest::try_from_request(exec_request(5, RequestedMode::Eval, "a.lsp"))
    else {
        panic!("the request is refused");
    };
    assert_eq!(valid.drawing_id.value(), 5);
    assert_eq!(valid.mode, ExecMode::Eval);
    assert_eq!(valid.source_name, "a.lsp");
    assert_eq!(&valid.source[..], b"(form)");
}

#[test]
fn sources_are_refused_with_their_fault() {
    let refused = |error| validation_failure(error, "a.lsp".into());
    assert_eq!(
        refused(SourceValidationError::SourceTooLarge).message,
        "The source exceeds the 4 MiB limit"
    );
    assert_eq!(
        refused(SourceValidationError::InvalidUtf8).message,
        "The source is not valid UTF-8"
    );
    assert_eq!(
        refused(SourceValidationError::NullCharacter).message,
        "The source contains U+0000, which AutoLISP cannot represent"
    );
    assert_eq!(
        refused(SourceValidationError::ExpectedOneForm { actual: 12 }).message,
        "eval requires exactly one top-level form; found 12"
    );
    assert_eq!(
        refused(SourceValidationError::Scan(ScanError {
            message: "unclosed list".into(),
            line: 3,
            column: 4,
        })),
        ExecFailure {
            message: "unclosed list".into(),
            form_index: None,
            location: Some(SourceLocation {
                source_name: "a.lsp".into(),
                line: 3,
                column: 4,
            }),
            drawing_outcome: DrawingOutcome::NotStarted,
            drawing_error: None,
        }
    );
}

#[test]
fn outcomes_are_the_last_event() {
    assert_eq!(
        finished_event(ExecOutcome::Success),
        ServerEvent::Finished(Finished::Success)
    );
    assert_eq!(
        finished_event(ExecOutcome::Cancelled),
        ServerEvent::Finished(Finished::Cancelled)
    );
    assert_eq!(
        finished_event(ExecOutcome::Failure(failure("no".into()))),
        ServerEvent::Finished(Finished::Failure(RpcFailure {
            message: "no".into(),
            form_index: None,
            location: None,
            drawing_outcome: DrawingOutcome::NotStarted,
            drawing_error: DrawingErrorKind::Unspecified,
        }))
    );
}

#[test]
fn the_first_message_must_be_a_request() {
    let told = |first: FirstMessage<u8>| first_request(first).unwrap_err();
    let status = told(FirstMessage::TimedOut);
    assert_eq!(status.code, Code::DeadlineExceeded);
    assert_eq!(status.message(), "The execution request was not received");
    let status = told(FirstMessage::Ended);
    assert_eq!(status.code, Code::InvalidArgument);
    assert_eq!(status.message(), "The first execution message is required");
    let status = told(FirstMessage::Other);
    assert_eq!(status.code, Code::InvalidArgument);
    assert_eq!(status.message(), "The first execution message must be a request");
    let broken = || Status::new(Code::Internal, "broken");
    assert_eq!(told(FirstMessage::Failed(broken())), broken());
    assert_eq!(first_request(FirstMessage::Request(5)), Ok(5));
}

#[test]
fn a_stream_needs_a_place() {
    let mut pool = ReservationPool::new();
    assert!(reserved(try_reserve_execution(&mut pool)).is_ok());
    let Err(status) = reserved(None) else {
        panic!("there is no place");
    };
    assert_eq!(status.code, Code::ResourceExhausted);
    assert_eq!(status.message(), "Too many live execution streams");
}

fn refused(pool: &mut ReservationPool, error: Error) -> RefusedExecution {
    RefusedExecution { error, reservation: try_reserve_execution(pool).unwrap() }
}

#[test]
fn a_refused_execution_is_answered_by_its_fault() {
    let mut pool = ReservationPool::new();
    let answer = admission_answer(Err(refused(&mut pool, Error::Stopped)), None, None);
    let Answer::Refused { status, .. } = answer else {
        panic!("the plugin is at fault");
    };
    assert_eq!(status.code, Code::Internal);

    let answer = admission_answer(
        Err(refused(&mut pool, Error::ExecutionCapacity)),
        None,
        None,
    );
    let Answer::Terminal { mut response } = answer else {
        panic!("the request is at fault");
    };
    let (event, reservation) = response.next();
    assert!(reservation.is_some());
    let Some(ServerEvent::Finished(Finished::Failure(failure))) = event else {
        panic!("the execution has failed");
    };
    assert_eq!(failure.message, Error::ExecutionCapacity.message());
    assert_eq!(failure.drawing_outcome, DrawingOutcome::NotStarted);
}

#[test]
fn a_first_message_is_prepared_step_by_step() {
    let mut pool = ReservationPool::new();
    let prepared = |pool: &mut ReservationPool, first: FirstMessage<ExecRequest>| {
        let place = try_reserve_execution(pool);
        prepare_execution(pool, place, first, scan("(form)"))
    };

    let first = FirstMessage::Request(exec_request(0, RequestedMode::Exec, "a.lsp"));
    let Prepared::Rejected(status) = prepare_execution(&mut pool, None, first, scan("(form)"))
    else {
        panic!("there is no place");
    };
    assert_eq!(status.code, Code::ResourceExhausted);

    for _ in 0..=MAX_ADMITTED_EXECUTIONS {
        let Prepared::Rejected(status) = prepared(&mut pool, FirstMessage::Ended) else {
            panic!("there is no request");
        };
        assert_eq!(status.message(), "The first execution message is required");
    }

    let first = FirstMessage::Request(exec_request(0, RequestedMode::Exec, "a.lsp"));
    let Prepared::Terminal(mut response) = prepared(&mut pool, first) else {
        panic!("the request is at fault");
    };
    let (event, Some(place)) = response.next() else {
        panic!("the place is held");
    };
    pool.release(place);
    let Some(ServerEvent::Finished(Finished::Failure(failure))) = event else {
        panic!("the execution has failed");
    };
    assert_eq!(failure.message, "The drawing ID is invalid");

    let mut request = exec_request(7, RequestedMode::Eval, "a.lsp");
    request.source = Bytes::from_static(b"(one) (two)");
    let place = try_reserve_execution(&mut pool);
    let Prepared::Terminal(mut response) =
        prepare_execution(&mut pool, place, FirstMessage::Request(request), scan("(one) (two)"))
    else {
        panic!("the source is at fault");
    };
    let Some(ServerEvent::Finished(Finished::Failure(failure))) = response.next().0 else {
        panic!("the execution has failed");
    };
    assert_eq!(failure.message, "eval requires exactly one top-level form; found 2");

    let first = FirstMessage::Request(exec_request(7, RequestedMode::Eval, "a.lsp"));
    let Prepared::Ready { drawing_id, execution, .. } = prepared(&mut pool, first) else {
        panic!("the request is refused");
    };
    assert_eq!(drawing_id.value(), 7);
    assert_eq!(execution.source_bytes(), 6);
    assert!(execution.outcome().is_none());
}

#[test]
fn a_response_is_accepted_relays_output_and_ends_with_the_outcome() {
    let mut response = ExecuteResponse::new();
    assert_eq!(response.awaited(), Awaited::Nothing);
    assert!(matches!(
        response.next_event(ResponseEvent::Begin),
        ResponseAction::Send(ServerEvent::Accepted)
    ));
    assert_eq!(response.awaited(), Awaited::Output { control: true });
    let ResponseAction::Send(event) = response.next_event(ResponseEvent::Chunk("text".into()))
    else {
        panic!("output is sent");
    };
    assert_eq!(event, ServerEvent::Output("text".into()));
    let ResponseAction::Send(event) =
        response.next_event(ResponseEvent::Control(CancelDisposition::Accepted))
    else {
        panic!("the acknowledgement is sent");
    };
    assert_eq!(
        event,
        ServerEvent::CancelAcknowledgement(CancelDisposition::Accepted)
    );
    assert!(matches!(
        response.next_event(ResponseEvent::ControlClosed),
        ResponseAction::Wait
    ));
    assert_eq!(response.awaited(), Awaited::Output { control: false });
    assert!(matches!(
        response.next_event(ResponseEvent::OutputEnded),
        ResponseAction::Wait
    ));
    assert_eq!(response.awaited(), Awaited::Completion { control: false });
    let ResponseAction::Send(event) =
        response.next_event(ResponseEvent::Completed(ExecOutcome::Cancelled))
    else {
        panic!("the outcome is sent");
    };
    assert_eq!(event, ServerEvent::Finished(Finished::Cancelled));
    assert_eq!(response.awaited(), Awaited::End);
}

#[test]
fn a_broken_conversation_is_passed_on() {
    let mut response = ExecuteResponse::new();
    response.next_event(ResponseEvent::Begin);
    let broken = || Status::new(Code::Internal, "broken");
    let ResponseAction::Fail(status) =
        response.next_event(ResponseEvent::ControlFailed(broken()))
    else {
        panic!("the failure is passed on");
    };
    assert_eq!(status, broken());
    assert_eq!(response.awaited(), Awaited::Output { control: true });
}

#[test]
fn a_client_may_only_cancel_and_is_answered_once() {
    let mut reader = ControlReader::new();
    let ControlStep::Reject(status) = reader.read(ClientMessage::Other) else {
        panic!("nothing else is understood");
    };
    assert_eq!(status.code, Code::InvalidArgument);
    assert_eq!(
        status.message(),
        "Only Cancel is valid after the execution request"
    );
    assert!(matches!(reader.read(ClientMessage::Cancel), ControlStep::Cancel));
    let status = reader.cancelled(CancelResult::Unavailable).unwrap_err();
    assert_eq!(status.code, Code::Internal);
    assert_eq!(status.message(), "Execution cancellation state is unavailable");
    assert!(matches!(reader.read(ClientMessage::Cancel), ControlStep::Cancel));
    assert_eq!(
        reader.cancelled(CancelResult::Accepted),
        Ok(CancelDisposition::Accepted)
    );
    assert!(matches!(reader.read(ClientMessage::Cancel), ControlStep::Ignore));
    for late in [CancelResult::TooLate, CancelResult::NotFound] {
        assert_eq!(
            ControlReader::new().cancelled(late),
            Ok(CancelDisposition::TooLate)
        );
    }
}

#[test]
fn the_server_reports_its_start_once() {
    let mut state = ServeState::new();
    assert_eq!(state.next(ServeEvent::EndpointReady), ServeAction::ReportAndServe);
    assert_eq!(state.next(ServeEvent::ServingEnded), ServeAction::Rest);
    assert_eq!(state.next(ServeEvent::RestElapsed), ServeAction::SetUp);
    assert_eq!(
        state.next(ServeEvent::EndpointFailed("taken".into())),
        ServeAction::Rest
    );
    assert_eq!(state.next(ServeEvent::EndpointReady), ServeAction::Serve);
    assert_eq!(state.next(ServeEvent::StopRequested), ServeAction::End);
    let mut state = ServeState::new();
    assert_eq!(
        state.next(ServeEvent::EndpointFailed("taken".into())),
        ServeAction::ReportFailure("could not create the RPC endpoint: taken".into())
    );
}

#[test]
fn the_server_is_started_and_stopped_with_the_scheduler() {
    let mut scheduler = MutationScheduler::new(false);
    let mut slot = ServerSlot::new();
    assert_eq!(
        rpc_server::start(&mut scheduler, &mut slot, false),
        StartStep::Spawn
    );
    assert_eq!(
        finish_start(&mut slot, StartupReport::Vanished),
        Err("server thread stopped during startup".into())
    );
    assert_eq!(
        finish_start(&mut slot, StartupReport::Failed("taken".into())),
        Err("taken".into())
    );
    assert_eq!(finish_start(&mut slot, StartupReport::Started), Ok(()));
    assert_eq!(
        rpc_server::start(&mut scheduler, &mut slot, true),
        StartStep::Running
    );
    assert_eq!(
        rpc_server::start(&mut scheduler, &mut slot, false),
        StartStep::Replace
    );
    assert_eq!(finish_start(&mut slot, StartupReport::Started), Ok(()));
    scheduler::replace_document_snapshot(&mut scheduler, vec![document(1, true, false)]);
    let id = scheduler::list(&scheduler)[0].id.clone();
    let Submission::Queued { job_id, .. } = scheduler::save(&mut scheduler, id) else {
        panic!("the save waits");
    };
    let mut step = rpc_server::stop(&mut scheduler, &mut slot);
    assert!(step.shut_down);
    let settled = step.settled.remove(0);
    assert_eq!(settled.job_id, job_id);
    assert_eq!(save_outcome(settled.outcome), Err(Error::PluginStopping));
    assert!(!rpc_server::stop(&mut scheduler, &mut slot).shut_down);
}

struct Service {
    scheduler: MutationScheduler,
    pool: ReservationPool,
}

impl Service {
    fn new() -> Service {
        let mut scheduler = MutationScheduler::new(false);
        scheduler::replace_document_snapshot(&mut scheduler, vec![document(1, false, false)]);
        Service { scheduler, pool: ReservationPool::new() }
    }

    fn request(&self, source: &[u8]) -> ExecutionRequest {
        ExecutionRequest {
            document_id: scheduler::list(&self.scheduler)[0].id.clone(),
            mode: RequestedMode::Exec,
            source_name: "<stdin>".into(),
            source: Bytes::copy_from_slice(source),
        }
    }

    fn execute(&mut self, request: ExecutionRequest) -> Executed {
        let marked = request.source.strip_prefix(b"\xef\xbb\xbf");
        let text = String::from_utf8_lossy(marked.unwrap_or(&request.source)).into_owned();
        let reservation = try_reserve_execution(&mut self.pool);
        self.send(reservation, FirstMessage::Request(request), scan(&text))
    }

    fn send(
        &mut self,
        reservation: Option<ExecutionReservation>,
        first: FirstMessage<ExecutionRequest>,
        scan: SourceScan,
    ) -> Executed {
        execute(&mut self.scheduler, &mut self.pool, reservation, first, scan, 1000)
    }

    fn free_places(&mut self) -> usize {
        let mut taken = Vec::new();
        while let Some(reservation) = try_reserve_execution(&mut self.pool) {
            taken.push(reservation);
        }
        let count = taken.len();
        for reservation in taken {
            self.pool.release(reservation);
        }
        count
    }
}

fn terminal_failure(executed: Executed) -> (RpcFailure, ExecutionReservation) {
    let Executed::Terminal(mut response) = executed else {
        panic!("the request is at fault");
    };
    let (event, reservation) = response.next();
    let Some(ServerEvent::Finished(Finished::Failure(failure))) = event else {
        panic!("the execution has failed");
    };
    (failure, reservation.unwrap())
}

#[test]
fn execute_preserves_the_four_mib_source_boundary() {
    let mut service = Service::new();
    let largest = vec![b'x'; MAX_EXECUTION_SOURCE_BYTES];
    let mut with_mark = b"\xef\xbb\xbf".to_vec();
    with_mark.extend_from_slice(&largest);
    for source in [largest, with_mark] {
        let request = service.request(&source);
        let Executed::Started { job_id, settled, should_wake, reservation } =
            service.execute(request)
        else {
            panic!("the source is small enough");
        };
        assert!(settled.is_none());
        assert!(should_wake);
        let cancellation = scheduler::cancel_execution(&mut service.scheduler, job_id);
        assert_eq!(cancellation.result, CancelResult::Accepted);
        let settled = cancellation.settled.unwrap();
        service.pool.release(settled.reservation.unwrap());
        assert_eq!(service.free_places(), MAX_ADMITTED_EXECUTIONS - 1);
        service.pool.release(reservation);
        assert_eq!(service.free_places(), MAX_ADMITTED_EXECUTIONS);
        assert!(scheduler::try_claim_native_action_wake(&mut service.scheduler) == false);
        scheduler::take_native_action(&mut service.scheduler, 1000);
    }

    let request = service.request(&vec![b'x'; MAX_EXECUTION_SOURCE_BYTES + 1]);
    let executed = service.execute(request);
    assert_eq!(service.free_places(), MAX_ADMITTED_EXECUTIONS - 1);
    let (failure, reservation) = terminal_failure(executed);
    assert!(failure.message.contains("4 MiB"));
    assert_eq!(failure.drawing_outcome, DrawingOutcome::NotStarted);
    service.pool.release(reservation);
    assert_eq!(service.free_places(), MAX_ADMITTED_EXECUTIONS);
}

#[test]
fn a_job_outlives_its_response() {
    let mut service = Service::new();
    let request = service.request(b"form");
    let Executed::Started { job_id, reservation, .. } = service.execute(request) else {
        panic!("the execution is admitted");
    };
    scheduler::disconnect_output(&mut service.scheduler, job_id);
    service.pool.release(reservation);
    assert_eq!(service.free_places(), MAX_ADMITTED_EXECUTIONS - 1);

    let action = scheduler::take_native_action(&mut service.scheduler, 1000).action;
    assert_eq!(action.kind, NativeActionKind::QueueExecutionDriver);
    assert_eq!(action.job_id, job_id);
    assert!(matches!(
        scheduler::next_chunk(&mut service.scheduler, job_id),
        Some(ChunkPoll::Ended)
    ));
    let mut settled = scheduler::complete_native_action(
        &mut service.scheduler,
        job_id,
        NativeActionResult {
            kind: NativeActionResultKind::DocumentGone,
            native_status: 0,
            native_detail: String::new(),
        },
        1000,
    );
    let settled = settled.remove(0);
    assert_eq!(settled.job_id, job_id);
    service.pool.release(settled.reservation.unwrap());
    assert_eq!(service.free_places(), MAX_ADMITTED_EXECUTIONS);
}

#[test]
fn executions_are_refused_without_a_place_a_request_or_a_document() {
    let mut service = Service::new();
    let request = service.request(b"form");
    let executed = service.send(None, FirstMessage::Request(request), scan("form"));
    let Executed::Rejected(status) = executed else {
        panic!("there is no place");
    };
    assert_eq!(status.code, Code::ResourceExhausted);

    let reservation = try_reserve_execution(&mut service.pool);
    let executed = service.send(reservation, FirstMessage::Ended, scan(""));
    let Executed::Rejected(status) = executed else {
        panic!("there is no request");
    };
    assert_eq!(status.message(), "The first execution message is required");
    assert_eq!(service.free_places(), MAX_ADMITTED_EXECUTIONS);

    let mut request = service.request(b"form");
    request.document_id = "?".into();
    let (failure, _) = terminal_failure(service.execute(request));
    assert_eq!(failure.message, "The document ID is invalid");

    let mut request = service.request(b"form");
    request.source_name = String::new();
    let (failure, _) = terminal_failure(service.execute(request));
    assert_eq!(failure.message, "The source name is required");

    let mut request = service.request(b"form");
    request.mode = RequestedMode::Unspecified;
    let (failure, _) = terminal_failure(service.execute(request));
    assert_eq!(failure.message, "The execution mode must be eval or exec");

    let mut request = service.request(b"one two");
    request.mode = RequestedMode::Eval;
    let (failure, _) = terminal_failure(service.execute(request));
    assert_eq!(
        failure.message,
        "eval requires exactly one top-level form; found 2"
    );

    let _ = scheduler::stop(&mut service.scheduler);
    let request = service.request(b"form");
    let (failure, _) = terminal_failure(service.execute(request));
    assert_eq!(failure.message, "the acadctl plugin is stopping");
    assert_eq!(failure.drawing_outcome, DrawingOutcome::NotStarted);
}

#[test]
fn a_validated_request_keeps_what_it_asks_for() {
    let service = Service::new();
    let request = service.request(b"form");
    let id = request.document_id.clone();
    let Ok(validated) = validate_execution_request(request) else {
        panic!("the request is valid");
    };
    assert_eq!(validated.document_id, id);
    assert_eq!(validated.mode, RequestedMode::Exec);
    assert_eq!(validated.source_name, "<stdin>");
    assert_eq!(&validated.source[..], b"form");
}
