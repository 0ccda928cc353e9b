//! Executions of AutoLISP batches: one undo group around all forms of a source,
//! committed as a whole or rolled back as a whole.
use vstd::prelude::*;
use vstd::string::*;
use vstd::utf8::*;

pub mod laws;
pub mod output;
pub mod trail;
pub mod value;
pub mod value_bridge;
pub mod visitor;

use crate::exec::outcome;
pub use crate::exec::outcome::SourceLocation;
use crate::exec::outcome::LocationView;
use crate::exec::source::{FormSpan, ScanError, SourceScan};
use crate::exec::state;
use crate::text;
use crate::text::{byte_count, push_signed_decimal, split_prefix};

verus! {

pub const MAX_SOURCE_BYTES: usize = 4194304;

pub struct Execution {
    source_name: String,
    source: String,
    forms: Vec<Result<FormSpan, ScanError>>,
    next_form: usize,
    phase: Phase,
    failure: Option<Failure>,
    outcome: Option<Outcome>,
}

/// Why a source is not executed.
#[derive(Debug, PartialEq, Eq)]
pub enum ValidationError {
    SourceTooLarge,
    NullCharacter,
    Scan(ScanError),
}

#[derive(Debug, PartialEq, Eq)]
pub enum Outcome {
    Success,
    Failure(Failure),
}

#[derive(Debug, PartialEq, Eq)]
pub struct Failure {
    pub message: String,
    pub form_index: Option<usize>,
    pub location: Option<SourceLocation>,
    pub drawing_outcome: DrawingOutcome,
}

#[derive(Clone, Copy, Debug, PartialEq, Eq, Structural)]
pub enum DrawingOutcome {
    NotStarted,
    RolledBack,
    Unknown,
}

#[derive(Clone, Copy, Debug, PartialEq, Eq, Structural)]
pub enum StepKind {
    Invalid,
    Begin,
    Form,
    Commit,
    Rollback,
    Done,
}

pub struct NativeExecutionStep {
    kind: StepKind,
    source: String,
}

#[derive(Clone, Copy, Debug, PartialEq, Eq, Structural)]
pub enum StepResultKind {
    Success,
    LispError,
    NativeError,
}

#[derive(Debug, PartialEq, Eq)]
pub struct StepResult {
    pub kind: StepResultKind,
    pub native_status: i32,
    pub lisp_errno: i32,
    pub detail: String,
}

#[derive(Clone, Copy, Debug, PartialEq, Eq, Structural)]
pub enum Phase {
    Begin,
    AwaitingBegin,
    BetweenForms,
    AwaitingForm { index: usize, line: usize, column: usize },
    AwaitingCommit,
    Rollback,
    AwaitingRollback,
    Terminal,
    Done,
}

#[verifier::ext_equal]
pub struct FailureView {
    pub message: Seq<char>,
    pub form_index: Option<usize>,
    pub location: Option<LocationView>,
    pub drawing_outcome: DrawingOutcome,
}

#[verifier::ext_equal]
pub enum OutcomeView {
    Success,
    Failure(FailureView),
}

#[verifier::ext_equal]
pub struct ExecutionView {
    pub source_name: Seq<char>,
    pub source: Seq<char>,
    pub forms: Seq<Result<FormSpan, ScanError>>,
    pub next_form: int,
    pub phase: Phase,
    pub failure: Option<FailureView>,
    pub outcome: Option<OutcomeView>,
}

#[verifier::ext_equal]
pub struct StepView {
    pub kind: StepKind,
    pub source: Seq<char>,
}

impl View for Failure {
    type V = FailureView;

    open spec fn view(&self) -> FailureView {
        FailureView {
            message: self.message@,
            form_index: self.form_index,
            location: outcome::location_view(self.location),
            drawing_outcome: self.drawing_outcome,
        }
    }
}

impl View for Outcome {
    type V = OutcomeView;

    open spec fn view(&self) -> OutcomeView {
        match self {
            Outcome::Success => OutcomeView::Success,
            Outcome::Failure(failure) => OutcomeView::Failure(failure@),
        }
    }
}

pub open spec fn failure_view(failure: Option<Failure>) -> Option<FailureView> {
    match failure {
        Some(failure) => Some(failure@),
        None => None,
    }
}

pub open spec fn outcome_view(outcome: Option<Outcome>) -> Option<OutcomeView> {
    match outcome {
        Some(outcome) => Some(outcome@),
        None => None,
    }
}

impl View for Execution {
    type V = ExecutionView;

    closed spec fn view(&self) -> ExecutionView {
        ExecutionView {
            source_name: self.source_name@,
            source: self.source@,
            forms: self.forms@,
            next_form: self.next_form as int,
            phase: self.phase,
            failure: failure_view(self.failure),
            outcome: outcome_view(self.outcome),
        }
    }
}

impl View for NativeExecutionStep {
    type V = StepView;

    closed spec fn view(&self) -> StepView {
        StepView { kind: self.kind, source: self.source@ }
    }
}

/// The source without a leading byte-order mark.
pub open spec fn without_mark(source: Seq<char>) -> Seq<char> {
    if source.len() > 0 && source[0] == '\u{feff}' {
        source.skip(1)
    } else {
        source
    }
}

/// Why a source is refused, before its forms are looked at.
pub open spec fn source_fault(source: Seq<char>) -> Option<ValidationError> {
    if text::byte_len(without_mark(source)) > MAX_SOURCE_BYTES {
        Some(ValidationError::SourceTooLarge)
    } else if without_mark(source).contains('\0') {
        Some(ValidationError::NullCharacter)
    } else {
        None
    }
}

pub open spec fn validation_fault(
    source: Seq<char>,
    form_count: Result<usize, ScanError>,
) -> Option<ValidationError> {
    match source_fault(source) {
        Some(error) => Some(error),
        None => match form_count {
            Err(error) => Some(ValidationError::Scan(error)),
            Ok(_) => None,
        },
    }
}

impl StepResult {
    /// The message of a step: its own detail where it has one.
    pub open spec fn message(&self, fallback: Seq<char>) -> Seq<char> {
        if self.detail@.len() > 0 {
            self.detail@
        } else if self.kind is LispError && self.lisp_errno != 0 {
            fallback + " (ERRNO "@ + text::signed_decimal(self.lisp_errno as int) + ")"@
        } else if self.native_status != 0 {
            fallback + " (native status "@ + text::signed_decimal(self.native_status as int) + ")"@
        } else {
            fallback
        }
    }
}

impl FailureView {
    pub open spec fn plain(message: Seq<char>, drawing_outcome: DrawingOutcome) -> FailureView {
        FailureView { message, form_index: None, location: None, drawing_outcome }
    }

    /// The failure with a further message, and the drawing in doubt.
    pub open spec fn compounded(self, message: Seq<char>) -> FailureView {
        FailureView {
            message: self.message + "; "@ + message,
            drawing_outcome: DrawingOutcome::Unknown,
            ..self
        }
    }
}

impl OutcomeView {
    pub open spec fn into_unknown_failure(self, message: Seq<char>) -> FailureView {
        match self {
            OutcomeView::Success => FailureView::plain(message, DrawingOutcome::Unknown),
            OutcomeView::Failure(failure) => failure.compounded(message),
        }
    }
}

impl Phase {
    /// A step has been handed out and its result is awaited.
    pub open spec fn awaiting(self) -> bool {
        ||| self is AwaitingBegin
        ||| self is AwaitingForm
        ||| self is AwaitingCommit
        ||| self is AwaitingRollback
    }

    /// How far a phase is from the end, where no more forms are handed out.
    pub open spec fn distance(self) -> int {
        match self {
            Phase::Begin => 8,
            Phase::AwaitingBegin => 7,
            Phase::AwaitingForm { .. } => 6,
            Phase::BetweenForms => 5,
            Phase::AwaitingCommit => 4,
            Phase::Rollback => 3,
            Phase::AwaitingRollback => 2,
            Phase::Terminal => 1,
            Phase::Done => 0,
        }
    }
}

impl ExecutionView {
    pub open spec fn fresh(
        source_name: Seq<char>,
        source: Seq<char>,
        forms: Seq<Result<FormSpan, ScanError>>,
        form_count: usize,
    ) -> ExecutionView {
        ExecutionView {
            source_name,
            source,
            forms,
            next_form: 0,
            phase: if form_count == 0 {
                Phase::Terminal
            } else {
                Phase::Begin
            },
            failure: None,
            outcome: if form_count == 0 {
                Some(OutcomeView::Success)
            } else {
                None
            },
        }
    }

    /// What holds of every execution.
    pub open spec fn consistent(self) -> bool {
        &&& 0 <= self.next_form <= self.forms.len()
        &&& forall|i: int|
            0 <= i < self.forms.len() ==> (#[trigger] self.forms[i] matches Ok(span) ==> span.fits(
                encode_utf8(self.source),
            ))
        &&& self.outcome is Some ==> self.phase is Terminal || self.phase is Done
        &&& self.failure is Some <==> self.phase is Rollback || self.phase is AwaitingRollback
    }

    pub open spec fn location(self, line: usize, column: usize) -> LocationView {
        LocationView { source_name: self.source_name, line, column }
    }

    pub open spec fn next_item(self) -> Option<Result<FormSpan, ScanError>> {
        if self.next_form < self.forms.len() {
            Some(self.forms[self.next_form])
        } else {
            None
        }
    }

    pub open spec fn ended(self, outcome: OutcomeView) -> ExecutionView {
        ExecutionView { outcome: Some(outcome), phase: Phase::Terminal, ..self }
    }

    pub open spec fn failing(self, failure: FailureView) -> ExecutionView {
        ExecutionView { failure: Some(failure), phase: Phase::Rollback, ..self }
    }

    /// A scanner error takes effect where a step would begin.
    pub open spec fn resolved(self) -> ExecutionView {
        match self.next_item() {
            Some(Err(error)) => if self.phase is BetweenForms {
                self.failing(
                    FailureView {
                        message: error.message@,
                        form_index: None,
                        location: Some(self.location(error.line, error.column)),
                        drawing_outcome: DrawingOutcome::Unknown,
                    },
                )
            } else {
                self
            },
            _ => self,
        }
    }

    /// The step that a resolved execution hands out.
    pub open spec fn step(self) -> StepView {
        match self.phase {
            Phase::Begin => StepView { kind: StepKind::Begin, source: Seq::empty() },
            Phase::BetweenForms => match self.next_item() {
                Some(Ok(span)) => StepView {
                    kind: StepKind::Form,
                    source: state::span_text(encode_utf8(self.source), span),
                },
                _ => StepView { kind: StepKind::Commit, source: Seq::empty() },
            },
            Phase::Rollback => StepView { kind: StepKind::Rollback, source: Seq::empty() },
            Phase::Terminal => StepView { kind: StepKind::Done, source: Seq::empty() },
            _ => StepView { kind: StepKind::Invalid, source: Seq::empty() },
        }
    }

    /// A resolved execution after it has handed out its step.
    pub open spec fn handed_out(self) -> ExecutionView {
        match self.phase {
            Phase::Begin => ExecutionView { phase: Phase::AwaitingBegin, ..self },
            Phase::BetweenForms => match self.next_item() {
                Some(Ok(span)) => ExecutionView {
                    next_form: self.next_form + 1,
                    phase: Phase::AwaitingForm {
                        index: (self.next_form + 1) as usize,
                        line: span.line,
                        column: span.column,
                    },
                    ..self
                },
                _ => ExecutionView { phase: Phase::AwaitingCommit, ..self },
            },
            Phase::Rollback => ExecutionView { phase: Phase::AwaitingRollback, ..self },
            Phase::Terminal => ExecutionView { phase: Phase::Done, ..self },
            _ => self,
        }
    }

    /// After a step was taken.
    pub open spec fn stepped(self) -> ExecutionView {
        self.resolved().handed_out()
    }

    /// After an awaited result came in.
    pub open spec fn completed(self, result: StepResult) -> ExecutionView {
        let success = result.kind is Success;
        match self.phase {
            Phase::AwaitingBegin => if success {
                ExecutionView { phase: Phase::BetweenForms, ..self }
            } else {
                self.ended(
                    OutcomeView::Failure(
                        FailureView::plain(
                            result.message("could not begin the undo group"@),
                            DrawingOutcome::NotStarted,
                        ),
                    ),
                )
            },
            Phase::AwaitingForm { index, line, column } => if success {
                ExecutionView { phase: Phase::BetweenForms, ..self }
            } else {
                self.failing(
                    FailureView {
                        message: result.message("form evaluation failed"@),
                        form_index: Some(index),
                        location: Some(self.location(line, column)),
                        drawing_outcome: DrawingOutcome::Unknown,
                    },
                )
            },
            Phase::AwaitingCommit => if success {
                self.ended(OutcomeView::Success)
            } else {
                self.failing(
                    FailureView::plain(
                        result.message("could not finish the undo group"@),
                        DrawingOutcome::Unknown,
                    ),
                )
            },
            Phase::AwaitingRollback => ExecutionView { failure: None, ..self }.ended(
                OutcomeView::Failure(
                    if success {
                        FailureView {
                            drawing_outcome: DrawingOutcome::RolledBack,
                            ..self.failure->0
                        }
                    } else {
                        self.failure->0.compounded(result.message("drawing rollback failed"@))
                    },
                ),
            ),
            _ => self,
        }
    }

    /// After the lease of an ended execution could not be released: the drawing is in
    /// doubt.
    pub open spec fn release_failed(self, result: StepResult) -> ExecutionView {
        match self.outcome {
            Some(outcome) => ExecutionView {
                outcome: Some(
                    OutcomeView::Failure(
                        outcome.into_unknown_failure(
                            result.message("the native execution lease could not be released"@),
                        ),
                    ),
                ),
                ..self
            },
            None => self,
        }
    }

    /// After the native side gave the execution up: the drawing is in doubt.
    pub open spec fn abandoned(self, result: StepResult) -> ExecutionView {
        let message = result.message("execution could not continue safely"@);
        let failure = match (self.outcome, self.failure, self.phase) {
            (Some(outcome), _, _) => outcome.into_unknown_failure(message),
            (None, Some(failure), _) => failure.compounded(message),
            (None, None, Phase::AwaitingForm { index, line, column }) => FailureView {
                message,
                form_index: Some(index),
                location: Some(self.location(line, column)),
                drawing_outcome: DrawingOutcome::Unknown,
            },
            _ => FailureView::plain(message, DrawingOutcome::Unknown),
        };
        ExecutionView {
            outcome: Some(OutcomeView::Failure(failure)),
            failure: if self.outcome is Some {
                self.failure
            } else {
                None
            },
            phase: if self.phase is Done {
                Phase::Done
            } else {
                Phase::Terminal
            },
            ..self
        }
    }
}

/// Every step that is handed out and every result that is taken brings the
/// execution nearer to its end, so it ends.
pub proof fn law_every_step_makes_progress(execution: ExecutionView, result: StepResult)
    requires
        execution.consistent(),
    ensures
        !(execution.resolved().step().kind is Invalid) ==> decreases_to!(
            execution.forms.len() - execution.next_form, execution.phase.distance() =>
            execution.forms.len() - execution.stepped().next_form,
            execution.stepped().phase.distance()
        ),
        execution.phase.awaiting() ==> decreases_to!(
            execution.forms.len() - execution.next_form, execution.phase.distance() =>
            execution.forms.len() - execution.completed(result).next_form,
            execution.completed(result).phase.distance()
        ),
{
}

/// A commit that succeeded is never rolled back.
pub proof fn law_commit_is_final(execution: ExecutionView, result: StepResult)
    requires
        execution.consistent(),
        execution.phase is Terminal || execution.phase is Done,
    ensures
        execution.stepped().phase is Done,
        execution.completed(result) == execution,
{
}

/// The failure that started a rollback is the one reported.
pub proof fn law_rollback_reports_the_first_failure(
    execution: ExecutionView,
    failure: FailureView,
    result: StepResult,
)
    requires
        execution.consistent(),
        execution.phase is AwaitingRollback,
        execution.failure == Some(failure),
    ensures
        execution.completed(result).outcome matches Some(OutcomeView::Failure(reported))
            && reported.form_index == failure.form_index && reported.location == failure.location
            && (reported.drawing_outcome is RolledBack <==> result.kind is Success) && (
        result.kind is Success ==> reported.message == failure.message),
{
}

/// A form that lies in the source, as text.
fn form_text<'a>(source: &'a str, span: &FormSpan) -> (form: &'a str)
    requires
        span.fits(encode_utf8(source@)),
    ensures
        form@ == state::span_text(encode_utf8(source@), *span),
{
    let ghost bytes = encode_utf8(source@);
    proof {
        encode_utf8_valid_utf8(source@);
        state::lemma_inner_boundary(bytes, span.byte_start as int, span.byte_end as int);
    }
    let head = source.split_at(span.byte_end).0;
    let form = head.split_at(span.byte_start).1;
    proof {
        assert(encode_utf8(form@) =~= bytes.subrange(span.byte_start as int, span.byte_end as int));
        encode_utf8_decode_utf8(form@);
    }
    form
}

fn contains_nul(source: &str) -> (result: bool)
    ensures
        result == source@.contains('\0'),
{
    for ch in iter: source.chars()
        invariant
            iter.seq() == source@,
            forall|i: int| 0 <= i < iter.index() ==> #[trigger] source@[i] != '\0',
    {
        if ch == '\0' {
            assert(source@[iter.index()] == '\0');
            return true;
        }
    }
    false
}

fn starts_with_mark(source: &str) -> (result: bool)
    ensures
        result == (source@.len() > 0 && source@[0] == '\u{feff}'),
{
    for ch in iter: source.chars()
        invariant
            iter.seq() == source@,
            iter.index() == 0,
    {
        assert(ch == source@[0]);
        return ch == '\u{feff}';
    }
    false
}

/// The source without its byte-order mark, if it can be executed.
pub fn validated_source(source: String) -> (validated: Result<String, ValidationError>)
    ensures
        match validated {
            Ok(validated) => {
                &&& source_fault(source@) is None
                &&& validated@ == without_mark(source@)
            },
            Err(error) => source_fault(source@) == Some(error),
        },
{
    let stripped = if starts_with_mark(source.as_str()) {
        proof {
            text::lemma_char_bytes(source@[0]);
            let rest = source@.drop_first();
            if rest.len() > 0 {
                text::lemma_char_bytes(rest[0]);
            }
            assert(text::prefix_chars(rest, 0) == 0);
            assert(text::prefix_chars(source@, 3) == 1);
        }
        split_prefix(source.as_str(), 3).1.to_owned()
    } else {
        source
    };
    if byte_count(stripped.as_str()) > MAX_SOURCE_BYTES {
        return Err(ValidationError::SourceTooLarge);
    }
    if contains_nul(stripped.as_str()) {
        return Err(ValidationError::NullCharacter);
    }
    Ok(stripped)
}

impl Execution {
    pub closed spec fn well_formed(&self) -> bool {
        self@.consistent()
    }

    pub proof fn lemma_consistent(&self)
        requires
            self.well_formed(),
        ensures
            self@.consistent(),
    {
    }

    /// An execution of a source. `scan` is what the form scanner says of the
    /// source without its byte-order mark; it is read only where the source
    /// itself can be executed.
    pub fn new(source_name: String, source: String, scan: SourceScan) -> (result: Result<
        Execution,
        ValidationError,
    >)
        requires
            source_fault(source@) is None ==> scan.fits(encode_utf8(without_mark(source@))),
        ensures
            match result {
                Ok(execution) => {
                    &&& validation_fault(source@, scan.form_count) is None
                    &&& execution.well_formed()
                    &&& execution@ == ExecutionView::fresh(
                        source_name@,
                        without_mark(source@),
                        scan.forms@,
                        scan.form_count->Ok_0,
                    )
                },
                Err(error) => validation_fault(source@, scan.form_count) == Some(error),
            },
    {
        let source = match validated_source(source) {
            Ok(validated) => validated,
            Err(error) => return Err(error),
        };
        let form_count: usize = match scan.form_count {
            Ok(count) => count,
            Err(error) => return Err(ValidationError::Scan(error)),
        };
        let empty = form_count == 0;
        Ok(
            Execution {
                source_name,
                source,
                forms: scan.forms,
                next_form: 0,
                phase: if empty {
                    Phase::Terminal
                } else {
                    Phase::Begin
                },
                failure: None,
                outcome: if empty {
                    Some(Outcome::Success)
                } else {
                    None
                },
            },
        )
    }

    pub fn outcome(&self) -> (outcome: Option<&Outcome>)
        ensures
            outcome is Some <==> self@.outcome is Some,
            outcome matches Some(outcome) ==> Some(outcome@) == self@.outcome,
    {
        self.outcome.as_ref()
    }

    pub fn take_outcome(&mut self) -> (outcome: Option<Outcome>)
        requires
            old(self).well_formed(),
        ensures
            final(self).well_formed(),
            outcome_view(outcome) == old(self)@.outcome,
            final(self)@ == (ExecutionView { outcome: None, ..old(self)@ }),
    {
        self.outcome.take()
    }

    /// Hands out the next step.
    pub fn take_step(&mut self) -> (step: NativeExecutionStep)
        requires
            old(self).well_formed(),
        ensures
            final(self).well_formed(),
            final(self)@ == old(self)@.stepped(),
            step@ == old(self)@.resolved().step(),
    {
        if self.phase == Phase::BetweenForms && self.next_form < self.forms.len() {
            match &self.forms[self.next_form] {
                Ok(span) => {
                    let span = *span;
                    let form = form_text(self.source.as_str(), &span).to_owned();
                    let index: usize = self.next_form + 1;
                    self.next_form = index;
                    self.phase = Phase::AwaitingForm {
                        index,
                        line: span.line,
                        column: span.column,
                    };
                    return NativeExecutionStep { kind: StepKind::Form, source: form };
                },
                Err(error) => {
                    let failure = Failure {
                        message: error.message.clone(),
                        form_index: None,
                        location: Some(
                            SourceLocation::from_scan_error(self.source_name.clone(), error),
                        ),
                        drawing_outcome: DrawingOutcome::Unknown,
                    };
                    self.failure = Some(failure);
                    self.phase = Phase::Rollback;
                },
            }
        }
        match self.phase {
            Phase::Begin => {
                self.phase = Phase::AwaitingBegin;
                NativeExecutionStep::new(StepKind::Begin)
            },
            Phase::BetweenForms => {
                self.phase = Phase::AwaitingCommit;
                NativeExecutionStep::new(StepKind::Commit)
            },
            Phase::Rollback => {
                self.phase = Phase::AwaitingRollback;
                NativeExecutionStep::new(StepKind::Rollback)
            },
            Phase::Terminal => {
                self.phase = Phase::Done;
                NativeExecutionStep::new(StepKind::Done)
            },
            Phase::AwaitingBegin
            | Phase::AwaitingForm { .. }
            | Phase::AwaitingCommit
            | Phase::AwaitingRollback
            | Phase::Done => NativeExecutionStep::new(StepKind::Invalid),
        }
    }

    /// Takes the result of the step that was handed out; says whether one was awaited.
    pub fn complete_step(&mut self, result: StepResult) -> (accepted: bool)
        requires
            old(self).well_formed(),
        ensures
            final(self).well_formed(),
            accepted == old(self)@.phase.awaiting(),
            final(self)@ == old(self)@.completed(result),
    {
        let success = result.kind == StepResultKind::Success;
        match self.phase {
            Phase::AwaitingBegin => {
                if success {
                    self.phase = Phase::BetweenForms;
                } else {
                    self.outcome = Some(
                        Outcome::Failure(
                            Failure::plain(
                                result.into_message("could not begin the undo group"),
                                DrawingOutcome::NotStarted,
                            ),
                        ),
                    );
                    self.phase = Phase::Terminal;
                }
            },
            Phase::AwaitingForm { index, line, column } => {
                if success {
                    self.phase = Phase::BetweenForms;
                } else {
                    self.failure = Some(
                        Failure {
                            message: result.into_message("form evaluation failed"),
                            form_index: Some(index),
                            location: Some(
                                SourceLocation::new(self.source_name.clone(), line, column),
                            ),
                            drawing_outcome: DrawingOutcome::Unknown,
                        },
                    );
                    self.phase = Phase::Rollback;
                }
            },
            Phase::AwaitingCommit => {
                if success {
                    self.outcome = Some(Outcome::Success);
                    self.phase = Phase::Terminal;
                } else {
                    self.failure = Some(
                        Failure::plain(
                            result.into_message("could not finish the undo group"),
                            DrawingOutcome::Unknown,
                        ),
                    );
                    self.phase = Phase::Rollback;
                }
            },
            Phase::AwaitingRollback => {
                let mut failure = match self.failure.take() {
                    Some(failure) => failure,
                    None => {
                        return false;
                    },
                };
                if success {
                    failure.drawing_outcome = DrawingOutcome::RolledBack;
                } else {
                    failure.compound(result.into_message("drawing rollback failed").as_str());
                }
                self.outcome = Some(Outcome::Failure(failure));
                self.phase = Phase::Terminal;
            },
            Phase::Begin
            | Phase::BetweenForms
            | Phase::Rollback
            | Phase::Terminal
            | Phase::Done => {
                return false;
            },
        }
        true
    }

    /// Something went wrong after the end: the drawing is in doubt.
    pub fn record_terminal_failure(&mut self, result: StepResult) -> (recorded: bool)
        requires
            old(self).well_formed(),
        ensures
            final(self).well_formed(),
            recorded == (old(self)@.outcome is Some),
            final(self)@ == old(self)@.release_failed(result),
    {
        let cleanup = result.into_message("the native execution lease could not be released");
        let outcome = match self.outcome.take() {
            Some(outcome) => outcome,
            None => {
                return false;
            },
        };
        self.outcome = Some(Outcome::Failure(outcome.into_unknown_failure(cleanup)));
        true
    }

    /// The native side gives the execution up.
    pub fn abandon(&mut self, result: StepResult) -> (accepted: bool)
        requires
            old(self).well_formed(),
        ensures
            accepted,
            final(self).well_formed(),
            final(self)@ == old(self)@.abandoned(result),
    {
        let message = result.into_message("execution could not continue safely");
        let phase = self.phase;
        let existing = match self.outcome.take() {
            Some(outcome) => Some(outcome),
            None => match self.failure.take() {
                Some(failure) => Some(Outcome::Failure(failure)),
                None => None,
            },
        };
        let failure = match existing {
            Some(existing) => existing.into_unknown_failure(message),
            None => match phase {
                Phase::AwaitingForm { index, line, column } => Failure {
                    message,
                    form_index: Some(index),
                    location: Some(SourceLocation::new(self.source_name.clone(), line, column)),
                    drawing_outcome: DrawingOutcome::Unknown,
                },
                _ => Failure::plain(message, DrawingOutcome::Unknown),
            },
        };
        self.outcome = Some(Outcome::Failure(failure));
        self.phase =
        if phase == Phase::Done {
            Phase::Done
        } else {
            Phase::Terminal
        };
        true
    }
}

impl Outcome {
    fn into_unknown_failure(self, message: String) -> (failure: Failure)
        ensures
            failure@ == self@.into_unknown_failure(message@),
    {
        match self {
            Outcome::Success => Failure::plain(message, DrawingOutcome::Unknown),
            Outcome::Failure(failure) => {
                let mut failure = failure;
                failure.compound(message.as_str());
                failure
            },
        }
    }
}

impl Failure {
    fn plain(message: String, drawing_outcome: DrawingOutcome) -> (failure: Failure)
        ensures
            failure@ == FailureView::plain(message@, drawing_outcome),
    {
        Failure { message, form_index: None, location: None, drawing_outcome }
    }

    fn compound(&mut self, message: &str)
        ensures
            final(self)@ == old(self)@.compounded(message@),
    {
        self.message.push_str("; ");
        self.message.push_str(message);
        self.drawing_outcome = DrawingOutcome::Unknown;
    }
}

impl NativeExecutionStep {
    pub fn invalid() -> (step: NativeExecutionStep)
        ensures
            step@ == (StepView { kind: StepKind::Invalid, source: Seq::empty() }),
    {
        NativeExecutionStep::new(StepKind::Invalid)
    }

    fn new(kind: StepKind) -> (step: NativeExecutionStep)
        ensures
            step@ == (StepView { kind, source: Seq::empty() }),
    {
        NativeExecutionStep { kind, source: String::new() }
    }

    pub fn kind(&self) -> (kind: StepKind)
        ensures
            kind == self@.kind,
    {
        self.kind
    }

    /// The text of the form to evaluate.
    pub fn source(&self) -> (form: &str)
        ensures
            form@ == self@.source,
    {
        self.source.as_str()
    }
}

impl StepResult {
    fn into_message(self, fallback: &str) -> (message: String)
        ensures
            message@ == self.message(fallback@),
    {
        if !self.detail.as_str().is_empty() {
            return self.detail;
        }
        let mut message = fallback.to_owned();
        if self.kind == StepResultKind::LispError && self.lisp_errno != 0 {
            message.push_str(" (ERRNO ");
            push_signed_decimal(&mut message, self.lisp_errno as i64);
            message.push_str(")");
        } else if self.native_status != 0 {
            message.push_str(" (native status ");
            push_signed_decimal(&mut message, self.native_status as i64);
            message.push_str(")");
        }
        message
    }
}

} // verus!
