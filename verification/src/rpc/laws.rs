//! What a client is told of its execution, and why it is refused.
use vstd::prelude::*;

use super::drawing;
use super::drawing::DrawingPathError;
use super::exec;
use super::exec::{
    Awaited, ExecRequest, FinishedView, FirstMessage, RequestedMode, ResponseActionView, ResponseEvent,
    ResponseView, RpcFailureView, ServerEventView,
};
use super::status;
use super::status::DetailView;
use crate::exec::diagnostic;
use crate::exec::lisp::StepResultView;
use crate::exec::outcome::{
    DrawingErrorKind, DrawingOutcome, ExecMode, FailureView, OutcomeView, SourceValidationError,
};
use crate::exec::source;
use crate::exec::source::{FormSpan, ScanError, SourceScan};
use crate::exec::state;
use crate::exec::state::{CauseView, ExecView};
use crate::exec::trail;
use crate::exec::trail::{Call, Trail};
use crate::ids::DrawingId;
use crate::reading;
use crate::scheduler::error::ErrorView;
use crate::text;

verus! {

/// A client is told of a failure: what was said, in which form, where, what became of the
/// drawing, and the condition of the drawing where there is one.
pub open spec fn tells(shown: RpcFailureView, failure: FailureView) -> bool {
    &&& diagnostic::told_text(shown.message, failure.message)
    &&& shown.drawing_outcome == failure.drawing_outcome
    &&& shown.form_index is Some <==> failure.form_index is Some
    &&& failure.form_index is Some ==> shown.form_index->0 as int == failure.form_index->0 as int
    &&& shown.location is Some <==> failure.location is Some
    &&& failure.location is Some ==> {
        &&& shown.location->0.source_name == failure.location->0.source_name
        &&& shown.location->0.line as int == failure.location->0.line as int
        &&& shown.location->0.column as int == failure.location->0.column as int
    }
    &&& match failure.drawing_error {
        Some(kind) => shown.drawing_error == kind,
        None => shown.drawing_error is Unspecified,
    }
}

/// The last event of an execution tells its outcome: success is told of nothing but
/// success, cancellation of nothing but cancellation, and a failure with the very drawing
/// outcome that the execution ended with.
pub proof fn law_last_event_tells_the_outcome(
    response: ResponseView,
    event: ResponseEvent,
    outcome: OutcomeView,
)
    requires
        event matches ResponseEvent::Completed(completed) && completed@ == outcome,
    ensures
        response.next(event).1 matches ResponseActionView::Send(ServerEventView::Finished(finished))
            && {
            &&& exec::last_event(outcome) == ServerEventView::Finished(finished)
            &&& finished is Success <==> outcome is Success
            &&& finished is Cancelled <==> outcome is Cancelled
            &&& outcome matches OutcomeView::Failure(failure) ==> (
            finished matches FinishedView::Failure(shown) && tells(shown, failure))
        },
{
    if let OutcomeView::Failure(failure) = outcome {
        diagnostic::law_diagnostic_keeps_its_text(failure.message);
    }
}

/// Whatever was asked of an execution, its client is told the truth: that the drawing was
/// committed only for an evaluation whose commit succeeded, that it was rolled back only
/// where the rollback succeeded, that nothing was started only where no form was handed
/// out, and success only where every form was evaluated and the commit succeeded.
pub proof fn law_client_is_told_what_was_done(
    mode: ExecMode,
    source_name: Seq<char>,
    source: Seq<u8>,
    forms: Seq<Result<FormSpan, ScanError>>,
    form_count: usize,
    calls: Seq<Call>,
)
    requires
        ExecView::fresh(mode, source_name, source, forms, form_count).consistent(),
        Trail::start(ExecView::fresh(mode, source_name, source, forms, form_count)).after_all(
            calls,
        ).state.outcome is Some,
    ensures
        ({
            let start = ExecView::fresh(mode, source_name, source, forms, form_count);
            let trail = Trail::start(start).after_all(calls);
            exec::last_event(trail.state.outcome->0) matches ServerEventView::Finished(finished) && {
                &&& finished matches FinishedView::Failure(shown) ==> {
                    &&& shown.drawing_outcome is Committed ==> mode is Eval && trail.committed
                    &&& shown.drawing_outcome is RolledBack ==> trail.rolled_back
                    &&& shown.drawing_outcome is NotStarted ==> trail.forms_taken == 0
                }
                &&& finished is Success && form_count > 0 ==> {
                    &&& trail.committed
                    &&& trail.forms_evaluated == forms.len()
                }
            }
        }),
{
    trail::law_outcome_is_true(mode, source_name, source, forms, form_count, calls);
}

/// A failure that is rolled back is told as rolled back exactly where the rollback
/// succeeded, and as unknown where it did not; its form and its place stay.
pub proof fn law_client_learns_of_the_rollback(
    exec: ExecView,
    failure: FailureView,
    result: StepResultView,
)
    requires
        exec.consistent(),
        exec.phase is AwaitingRollbackUndoGroup,
        exec.unwind == Some(CauseView::Failure(failure)),
    ensures
        ({
            let good = result.kind is Success && result.bridge_symbols_clear_status == 0;
            &&& exec.completed(result).outcome is Some
            &&& exec::last_event(exec.completed(result).outcome->0) matches
                ServerEventView::Finished(FinishedView::Failure(shown)) && {
                &&& shown.drawing_outcome is RolledBack <==> good
                &&& shown.drawing_outcome is Unknown <==> !good
                &&& shown.form_index is Some <==> failure.form_index is Some
                &&& shown.location is Some <==> failure.location is Some
                &&& good ==> diagnostic::told_text(shown.message, failure.message)
            }
        }),
{
    diagnostic::law_diagnostic_keeps_its_text(failure.message);
}

/// Once the undo group of an evaluation is committed, a failure to give its value out is
/// told as committed, and nothing else is.
pub proof fn law_client_learns_of_the_commit(exec: ExecView, result: StepResultView)
    requires
        exec.consistent(),
        exec.phase is AwaitingEmitEvalValue,
    ensures
        ({
            let good = result.kind is Success && result.bridge_symbols_clear_status == 0;
            &&& exec.completed(result).outcome is Some
            &&& exec::last_event(exec.completed(result).outcome->0) matches
                ServerEventView::Finished(finished) && {
                &&& !(finished is Cancelled)
                &&& finished is Success ==> good
                &&& finished matches FinishedView::Failure(shown) ==> shown.drawing_outcome
                    is Committed && shown.form_index == Some(1u64)
            }
        }),
{
}

/// A request is refused for its drawing, else for the name of its source, else for its
/// mode, and for nothing else; a refusal says that nothing was started.
pub proof fn law_request_faults(drawing_id: u32, source_name: Seq<char>, mode: RequestedMode)
    ensures
        ({
            let fault = exec::request_fault(drawing_id, source_name, mode);
            let bytes = text::byte_len(source_name);
            let named = source_name.len() > 0 && bytes <= 4096;
            &&& fault is None <==> 1 <= drawing_id <= 65535 && named && (mode is Eval
                || mode is Exec)
            &&& fault is Some ==> {
                &&& fault->0.drawing_outcome is NotStarted
                &&& fault->0.form_index is None
                &&& fault->0.location is None
                &&& fault->0.drawing_error is None
            }
            &&& drawing_id == 0 || drawing_id > 65535 ==> diagnostic::told_text(
                fault->0.message,
                "The drawing ID is invalid"@,
            )
            &&& 1 <= drawing_id <= 65535 && source_name.len() == 0 ==> diagnostic::told_text(
                fault->0.message,
                "The source name is required"@,
            )
            &&& 1 <= drawing_id <= 65535 && source_name.len() > 0 && bytes > 4096 ==> diagnostic::told_text(
                fault->0.message,
                "The source name exceeds the 4 KiB limit"@,
            )
            &&& 1 <= drawing_id <= 65535 && named && !(mode is Eval) && !(mode is Exec)
                ==> diagnostic::told_text(fault->0.message, "The execution mode must be eval or exec"@)
        }),
{
    diagnostic::law_diagnostic_keeps_its_text("The drawing ID is invalid"@);
    diagnostic::law_diagnostic_keeps_its_text("The source name is required"@);
    diagnostic::law_diagnostic_keeps_its_text("The source name exceeds the 4 KiB limit"@);
    diagnostic::law_diagnostic_keeps_its_text("The execution mode must be eval or exec"@);
}

/// The failure of a source that is not executed says that nothing was started, and why.
/// What the form scanner found comes with its own words and its own place.
pub proof fn law_source_failures(error: SourceValidationError, source_name: Seq<char>)
    ensures
        ({
            let failure = exec::source_failure(error, source_name);
            &&& failure.drawing_outcome is NotStarted
            &&& failure.form_index is None
            &&& failure.drawing_error is None
            &&& match error {
                SourceValidationError::Scan(found) => {
                    &&& failure.message == found.message@
                    &&& failure.location is Some
                    &&& failure.location->0.source_name == source_name
                    &&& failure.location->0.line == found.line
                    &&& failure.location->0.column == found.column
                },
                SourceValidationError::SourceTooLarge => failure.location is None && diagnostic::told_text(
                    failure.message,
                    "The source exceeds the 4 MiB limit"@,
                ),
                SourceValidationError::InvalidUtf8 => failure.location is None && diagnostic::told_text(
                    failure.message,
                    "The source is not valid UTF-8"@,
                ),
                SourceValidationError::NullCharacter => failure.location is None && diagnostic::told_text(
                    failure.message,
                    "The source contains U+0000, which AutoLISP cannot represent"@,
                ),
                SourceValidationError::ExpectedOneForm { actual } => exists|digits: Seq<char>| {
                    &&& reading::digits_only(digits)
                    &&& #[trigger] reading::whole(digits) == actual
                    &&& failure.location is None
                    &&& diagnostic::told_text(
                        failure.message,
                        "eval requires exactly one top-level form; found "@ + digits,
                    )
                },
            }
        }),
{
    diagnostic::law_diagnostic_keeps_its_text("The source exceeds the 4 MiB limit"@);
    diagnostic::law_diagnostic_keeps_its_text("The source is not valid UTF-8"@);
    diagnostic::law_diagnostic_keeps_its_text(
        "The source contains U+0000, which AutoLISP cannot represent"@,
    );
    if let SourceValidationError::ExpectedOneForm { actual } = error {
        reading::law_decimal_reads_back(actual as nat);
        let digits = text::decimal(actual as nat);
        diagnostic::law_diagnostic_keeps_its_text(
            "eval requires exactly one top-level form; found "@ + digits,
        );
        assert(reading::whole(digits) == actual);
    }
}

/// A source is refused where it is too long without its mark, is no text, or holds a null
/// character, in this order; then for what the scanner found; and an evaluation where it
/// has not exactly one form.
pub proof fn law_source_faults(
    mode: ExecMode,
    bytes: Seq<u8>,
    marked: bool,
    form_count: Result<usize, ScanError>,
)
    requires
        !marked ==> !(bytes.len() >= 3 && bytes[0] == 0xef && bytes[1] == 0xbb && bytes[2]
            == 0xbf),
    ensures
        ({
            let source = if marked {
                seq![0xefu8, 0xbbu8, 0xbfu8] + bytes
            } else {
                bytes
            };
            let fault = state::validation_fault(mode, source, form_count);
            let decoded = vstd::utf8::decode_utf8(bytes);
            let long = bytes.len() > 4194304;
            let text = vstd::utf8::valid_utf8(bytes);
            let null = exists|i: int| 0 <= i < decoded.len() && #[trigger] decoded[i] as int == 0;
            &&& state::without_mark(source) == bytes
            &&& long <==> fault == Some(SourceValidationError::SourceTooLarge)
            &&& !long && !text <==> fault == Some(SourceValidationError::InvalidUtf8)
            &&& !long && text && null <==> fault == Some(SourceValidationError::NullCharacter)
            &&& !long && text && !null ==> match form_count {
                Err(found) => fault == Some(SourceValidationError::Scan(found)),
                Ok(actual) => if mode is Eval && actual != 1 {
                    fault == Some(SourceValidationError::ExpectedOneForm { actual })
                } else {
                    fault is None
                },
            }
        }),
{
    let source = if marked {
        seq![0xefu8, 0xbbu8, 0xbfu8] + bytes
    } else {
        bytes
    };
    assert(state::without_mark(source) =~= bytes);
    let decoded = vstd::utf8::decode_utf8(bytes);
    if decoded.contains('\0') {
        let i = choose|i: int| 0 <= i < decoded.len() && decoded[i] == '\0';
        assert(decoded[i] as int == 0);
    }
    if exists|i: int| 0 <= i < decoded.len() && #[trigger] decoded[i] as int == 0 {
        let i = choose|i: int| 0 <= i < decoded.len() && #[trigger] decoded[i] as int == 0;
        assert(decoded[i] == '\0');
        assert(decoded.contains('\0'));
    }
}

/// An error of the scheduler becomes a failure with its text and what is known of the
/// drawing.
pub proof fn law_error_failures(
    error: ErrorView,
    drawing_outcome: DrawingOutcome,
    kind: Option<DrawingErrorKind>,
)
    ensures
        ({
            let failure = exec::error_failure(error, drawing_outcome, kind);
            &&& diagnostic::told_text(failure.message, error.message())
            &&& failure.drawing_outcome == drawing_outcome
            &&& failure.drawing_error == kind
            &&& failure.form_index is None
            &&& failure.location is None
        }),
{
    diagnostic::law_diagnostic_keeps_its_text(error.message());
}

/// A first message without a request is refused: as too late where none came in time, with
/// the status of the stream where that failed, and as invalid else.
pub proof fn law_first_message_faults<R>(first: FirstMessage<R>)
    ensures
        first is Request <==> exec::first_message_fault(first) is None,
        first is TimedOut ==> exec::first_message_fault(first)->0.code is DeadlineExceeded,
        first is Ended || first is Other ==> exec::first_message_fault(first)->0.code
            is InvalidArgument,
        first is Ended ==> exec::first_message_fault(first)->0.message()
            == "The first execution message is required"@,
        first is Other ==> exec::first_message_fault(first)->0.message()
            == "The first execution message must be a request"@,
        first is TimedOut ==> exec::first_message_fault(first)->0.message()
            == "The execution request was not received"@,
        first matches FirstMessage::Failed(failed) ==> exec::first_message_fault(first)->0
            == failed@,
{
}

/// The code of a refusal: not found for a document that is not open, a deadline for one
/// that was not ready in time, internal where the plugin or AutoCAD is at fault, and a
/// failed precondition else. It says the condition of the drawing where clients know it,
/// else its text.
pub proof fn law_refusals(
    error: ErrorView,
    kind: Option<DrawingErrorKind>,
    drawing_id: Option<DrawingId>,
)
    ensures
        ({
            let refusal = status::refusal(error, kind, drawing_id);
            let late = kind is Some && kind->0 is ReadinessTimedOut;
            let internal = error is SchedulerStateUnavailable || error is Stopped
                || error is OpenNotPublished || error is SaveNotPublished
                || error is CloseNotPublished || error is DocumentContextFailed
                || error is DocumentContextRestoreFailed
                || error is ExecutionBridgeFinalizationFailed
                || error is ExecutionBridgeSymbolsClearFailed || error is ExecutionBridgeFailed
                || error is ExecutionNotFinished || error is NativeMutationStateUnknown;
            &&& refusal.code is NotFound <==> error is DocumentNotFound
            &&& refusal.code is DeadlineExceeded <==> late && !(error is DocumentNotFound)
            &&& refusal.code is Internal <==> internal && !late
            &&& refusal.code is FailedPrecondition <==> !internal && !late
                && !(error is DocumentNotFound)
            &&& kind is None ==> refusal.message() == error.message()
            &&& kind is Some ==> {
                &&& refusal.detail == DetailView::Drawing { kind: kind->0, drawing_id }
                &&& refusal.message() == "drawing operation failed"@
            }
        }),
{
}

/// A path that names no drawing file is refused with the reason that clients know.
pub proof fn law_path_messages(error: DrawingPathError)
    ensures
        error is NotDwg <==> drawing::path_message(error) == "Only DWG drawings can be opened"@,
        error is NotAbsolute <==> drawing::path_message(error)
            == "The drawing path must be absolute"@,
        error is TooLong <==> drawing::path_message(error)
            == "The drawing path exceeds the 32 KiB limit"@,
        error is NotFile || error is Resolve || error is InvalidUtf8 || error is AlreadyExists
            <==> drawing::path_message(error) == "The drawing path is invalid"@,
{
    reveal_strlit("Only DWG drawings can be opened");
    reveal_strlit("The drawing path must be absolute");
    reveal_strlit("The drawing path exceeds the 32 KiB limit");
    reveal_strlit("The drawing path is invalid");
    assert("Only DWG drawings can be opened"@.len() == 31);
    assert("The drawing path must be absolute"@.len() == 33);
    assert("The drawing path exceeds the 32 KiB limit"@.len() == 41);
    assert("The drawing path is invalid"@.len() == 27);
}

/// A request is carried out exactly where neither it nor its source is at fault; the request
/// is looked at first. It runs in the mode that was asked for.
pub proof fn law_requests_are_carried_out(request: ExecRequest, scan: SourceScan)
    ensures
        ({
            let failure = exec::exec_request_failure(request, scan);
            let fault = exec::request_fault(
                request.drawing_id,
                request.source_name@,
                request.mode,
            );
            let mode = if request.mode is Eval {
                ExecMode::Eval
            } else {
                ExecMode::Exec
            };
            let error = state::validation_fault(
                mode,
                source::bytes_contents(request.source),
                scan.form_count,
            );
            &&& exec::exec_mode(request.mode) == mode
            &&& failure is None <==> fault is None && error is None
            &&& fault is Some ==> failure == fault
            &&& fault is None && error is Some ==> failure == Some(
                exec::source_failure(error->0, request.source_name@),
            )
        }),
{
}

/// A response first says that the execution was accepted, then passes on every chunk of
/// output as it is, and then the outcome. What comes of a cancellation is passed on
/// meanwhile, and a client that has nothing more to say ends nothing.
pub proof fn law_response_passes_events_on(response: ResponseView, event: ResponseEvent)
    requires
        response.expects(event),
    ensures
        ({
            let (after, action) = response.next(event);
            &&& event is Begin ==> action == ResponseActionView::Send(ServerEventView::Accepted)
                && after.phase is RelayOutput && after.control_open == response.control_open
            &&& event matches ResponseEvent::Chunk(chunk) ==> action == ResponseActionView::Send(
                ServerEventView::Output(chunk@),
            ) && after == response
            &&& event is OutputEnded ==> action is Wait && after.phase is AwaitCompletion
                && after.control_open == response.control_open
            &&& event is Completed ==> after.phase is Done
            &&& event matches ResponseEvent::Control(disposition) ==> action
                == ResponseActionView::Send(ServerEventView::CancelAcknowledgement(disposition))
                && after == response
            &&& event matches ResponseEvent::ControlFailed(failed) ==> action
                == ResponseActionView::Fail(failed@)
            &&& event is ControlClosed ==> action is Wait && !after.control_open && after.phase
                == response.phase
        }),
{
}

/// What a response waits for: nothing before it has begun, output while that lasts, then
/// the outcome, each with what the client says as long as that can say something; and in
/// the end nothing more.
pub proof fn law_response_waits_for_what_comes(response: ResponseView, event: ResponseEvent)
    ensures
        response.phase is SendAccepted <==> response.awaited() is Nothing,
        response.phase is Done <==> response.awaited() is End,
        response.awaited() matches Awaited::Output { control } ==> response.phase is RelayOutput
            && control == response.control_open,
        response.awaited() matches Awaited::Completion { control } ==> response.phase
            is AwaitCompletion && control == response.control_open,
        response.expects(event) && event is Begin <==> event is Begin && response.awaited()
            is Nothing,
        response.expects(event) && event is Completed <==> event is Completed
            && response.awaited() is Completion,
        response.expects(event) && (event is Chunk || event is OutputEnded) <==> (event is Chunk
            || event is OutputEnded) && response.awaited() is Output,
        response.awaited() is End ==> !response.expects(event),
        !response.control_open ==> !(response.expects(event) && (event is Control
            || event is ControlFailed || event is ControlClosed)),
{
}

} // verus!
