//! What became of an execution.
use vstd::prelude::*;

use super::diagnostic;
use super::diagnostic::append_diagnostic;
use super::source::{FormSpan, ScanError};

verus! {

#[derive(Clone, Copy, Debug, PartialEq, Eq, Structural)]
pub enum ExecMode {
    Eval,
    Exec,
}

/// Why a source is not executed.
#[derive(Debug, PartialEq, Eq)]
pub enum SourceValidationError {
    SourceTooLarge,
    InvalidUtf8,
    NullCharacter,
    ExpectedOneForm { actual: usize },
    Scan(ScanError),
}

/// What is known of the drawing after an execution.
#[derive(Clone, Copy, Debug, PartialEq, Eq, Structural)]
pub enum DrawingOutcome {
    NotStarted,
    RolledBack,
    Committed,
    Unknown,
}

/// Conditions of a drawing that clients tell apart.
#[derive(Clone, Copy, Debug, PartialEq, Eq, Structural)]
pub enum DrawingErrorKind {
    Unspecified,
    NotOpen,
    ReadinessTimedOut,
    UnsavedChanges,
    HistoryOutcomeUnknown,
}

#[derive(Debug, PartialEq, Eq)]
pub enum ExecOutcome {
    Success,
    Failure(ExecFailure),
    Cancelled,
}

#[derive(Debug, PartialEq, Eq)]
pub struct ExecFailure {
    pub message: String,
    pub form_index: Option<usize>,
    pub location: Option<SourceLocation>,
    pub drawing_outcome: DrawingOutcome,
    pub drawing_error: Option<DrawingErrorKind>,
}

#[derive(Debug, PartialEq, Eq)]
pub struct SourceLocation {
    pub source_name: String,
    pub line: usize,
    pub column: usize,
}

#[verifier::ext_equal]
pub enum OutcomeView {
    Success,
    Failure(FailureView),
    Cancelled,
}

#[verifier::ext_equal]
pub struct FailureView {
    pub message: Seq<char>,
    pub form_index: Option<usize>,
    pub location: Option<LocationView>,
    pub drawing_outcome: DrawingOutcome,
    pub drawing_error: Option<DrawingErrorKind>,
}

#[verifier::ext_equal]
pub struct LocationView {
    pub source_name: Seq<char>,
    pub line: usize,
    pub column: usize,
}

impl View for SourceLocation {
    type V = LocationView;

    open spec fn view(&self) -> LocationView {
        LocationView { source_name: self.source_name@, line: self.line, column: self.column }
    }
}

/// An optional location.
pub open spec fn location_view(location: Option<SourceLocation>) -> Option<LocationView> {
    match location {
        Some(location) => Some(location@),
        None => None,
    }
}

impl View for ExecFailure {
    type V = FailureView;

    open spec fn view(&self) -> FailureView {
        FailureView {
            message: self.message@,
            form_index: self.form_index,
            location: location_view(self.location),
            drawing_outcome: self.drawing_outcome,
            drawing_error: self.drawing_error,
        }
    }
}

impl View for ExecOutcome {
    type V = OutcomeView;

    open spec fn view(&self) -> OutcomeView {
        match self {
            ExecOutcome::Success => OutcomeView::Success,
            ExecOutcome::Failure(failure) => OutcomeView::Failure(failure@),
            ExecOutcome::Cancelled => OutcomeView::Cancelled,
        }
    }
}

/// An optional outcome.
pub open spec fn outcome_view(outcome: Option<ExecOutcome>) -> Option<OutcomeView> {
    match outcome {
        Some(outcome) => Some(outcome@),
        None => None,
    }
}

impl FailureView {
    /// A failure that belongs to no form.
    pub open spec fn plain(message: Seq<char>, drawing_outcome: DrawingOutcome) -> FailureView {
        FailureView {
            message,
            form_index: None,
            location: None,
            drawing_outcome,
            drawing_error: None,
        }
    }

    /// The failure with a further detail in its message.
    pub open spec fn detailed(self, detail: Seq<char>) -> FailureView {
        FailureView { message: diagnostic::appended_text(self.message, detail), ..self }
    }

    pub open spec fn with_drawing(self, drawing_outcome: DrawingOutcome) -> FailureView {
        FailureView { drawing_outcome, ..self }
    }
}

impl OutcomeView {
    /// The outcome after something went wrong beside it that leaves the drawing
    /// in doubt: a failure keeps its place and gains the message.
    pub open spec fn into_unknown_failure(self, message: Seq<char>) -> FailureView {
        match self {
            OutcomeView::Failure(failure) => failure.detailed(message).with_drawing(
                DrawingOutcome::Unknown,
            ),
            _ => FailureView::plain(message, DrawingOutcome::Unknown),
        }
    }
}

impl ExecOutcome {
    pub(crate) fn into_unknown_failure(self, message: String) -> (failure: ExecFailure)
        ensures
            failure@ == self@.into_unknown_failure(message@),
    {
        match self {
            ExecOutcome::Failure(failure) => {
                let mut failure = failure;
                append_diagnostic(&mut failure.message, message.as_str());
                failure.drawing_outcome = DrawingOutcome::Unknown;
                failure
            },
            ExecOutcome::Success | ExecOutcome::Cancelled => {
                ExecFailure::unknown_drawing_outcome(message)
            },
        }
    }
}

impl ExecOutcome {
    pub(crate) fn duplicate(&self) -> (copy: ExecOutcome)
        ensures
            copy@ == self@,
    {
        match self {
            ExecOutcome::Success => ExecOutcome::Success,
            ExecOutcome::Failure(failure) => ExecOutcome::Failure(
                ExecFailure {
                    message: failure.message.clone(),
                    form_index: failure.form_index,
                    location: duplicate_location(&failure.location),
                    drawing_outcome: failure.drawing_outcome,
                    drawing_error: failure.drawing_error,
                },
            ),
            ExecOutcome::Cancelled => ExecOutcome::Cancelled,
        }
    }
}

impl ExecFailure {
    pub fn not_started(message: String) -> (failure: ExecFailure)
        ensures
            failure@ == FailureView::plain(message@, DrawingOutcome::NotStarted),
    {
        ExecFailure {
            message,
            form_index: None,
            location: None,
            drawing_outcome: DrawingOutcome::NotStarted,
            drawing_error: None,
        }
    }

    pub(crate) fn unknown_drawing_outcome(message: String) -> (failure: ExecFailure)
        ensures
            failure@ == FailureView::plain(message@, DrawingOutcome::Unknown),
    {
        ExecFailure {
            message,
            form_index: None,
            location: None,
            drawing_outcome: DrawingOutcome::Unknown,
            drawing_error: None,
        }
    }
}

impl SourceLocation {
    pub fn new(source_name: String, line: usize, column: usize) -> (location: SourceLocation)
        ensures
            location@ == (LocationView { source_name: source_name@, line, column }),
    {
        SourceLocation { source_name, line, column }
    }

    /// Where a form starts.
    pub fn from_span(source_name: String, span: &FormSpan) -> (location: SourceLocation)
        ensures
            location@ == (LocationView {
                source_name: source_name@,
                line: span.line,
                column: span.column,
            }),
    {
        SourceLocation::new(source_name, span.line, span.column)
    }

    /// Where the form scanner gave up.
    pub fn from_scan_error(source_name: String, error: &ScanError) -> (location: SourceLocation)
        ensures
            location@ == (LocationView {
                source_name: source_name@,
                line: error.line,
                column: error.column,
            }),
    {
        SourceLocation::new(source_name, error.line, error.column)
    }

    pub(crate) fn duplicate(&self) -> (copy: SourceLocation)
        ensures
            copy@ == self@,
    {
        SourceLocation::new(self.source_name.clone(), self.line, self.column)
    }
}

pub(crate) fn duplicate_location(location: &Option<SourceLocation>) -> (copy: Option<
    SourceLocation,
>)
    ensures
        location_view(copy) == location_view(*location),
{
    match location {
        Some(location) => Some(location.duplicate()),
        None => None,
    }
}

} // verus!
