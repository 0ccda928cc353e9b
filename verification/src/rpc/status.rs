//! Refusals as clients see them.
use vstd::prelude::*;

use crate::exec::outcome::DrawingErrorKind;
use crate::ids::DrawingId;
use crate::scheduler::error::{Error, ErrorView};

verus! {

/// The kind of a refusal.
#[derive(Clone, Copy, Debug, PartialEq, Eq, Structural)]
pub enum Code {
    InvalidArgument,
    NotFound,
    DeadlineExceeded,
    ResourceExhausted,
    FailedPrecondition,
    Internal,
}

/// What a refusal says: a text, or a condition of a drawing that clients tell apart.
#[derive(Debug, PartialEq, Eq)]
pub enum Detail {
    Message(String),
    Drawing { kind: DrawingErrorKind, drawing_id: Option<DrawingId> },
}

#[verifier::ext_equal]
pub enum DetailView {
    Message(Seq<char>),
    Drawing { kind: DrawingErrorKind, drawing_id: Option<DrawingId> },
}

/// A refusal.
#[derive(Debug, PartialEq, Eq)]
pub struct Status {
    pub code: Code,
    pub detail: Detail,
}

#[verifier::ext_equal]
pub struct StatusView {
    pub code: Code,
    pub detail: DetailView,
}

impl View for Detail {
    type V = DetailView;

    open spec fn view(&self) -> DetailView {
        match self {
            Detail::Message(message) => DetailView::Message(message@),
            Detail::Drawing { kind, drawing_id } => DetailView::Drawing {
                kind: *kind,
                drawing_id: *drawing_id,
            },
        }
    }
}

impl View for Status {
    type V = StatusView;

    open spec fn view(&self) -> StatusView {
        StatusView { code: self.code, detail: self.detail@ }
    }
}

impl StatusView {
    /// The text that comes with a refusal: a condition of a drawing is told by its kind,
    /// and its text is always the same.
    pub open spec fn message(self) -> Seq<char> {
        match self.detail {
            DetailView::Message(message) => message,
            DetailView::Drawing { .. } => "drawing operation failed"@,
        }
    }
}

/// A refusal with a text.
pub open spec fn plain(code: Code, message: Seq<char>) -> StatusView {
    StatusView { code, detail: DetailView::Message(message) }
}

impl Status {
    pub fn new(code: Code, message: &str) -> (status: Status)
        ensures
            status@ == plain(code, message@),
    {
        Status { code, detail: Detail::Message(message.to_owned()) }
    }

    pub fn invalid_argument(message: &str) -> (status: Status)
        ensures
            status@ == plain(Code::InvalidArgument, message@),
    {
        Status::new(Code::InvalidArgument, message)
    }

    /// The text that comes with the refusal.
    pub fn message(&self) -> (message: &str)
        ensures
            message@ == self@.message(),
    {
        match &self.detail {
            Detail::Message(message) => message.as_str(),
            Detail::Drawing { .. } => "drawing operation failed",
        }
    }
}

/// The drawing that a number stands for.
pub fn parse_drawing_id(id: u32) -> (parsed: Result<DrawingId, Status>)
    ensures
        match parsed {
            Ok(parsed) => 0 < id < 65536 && parsed@ == id,
            Err(status) => !(0 < id < 65536) && status@ == plain(
                Code::InvalidArgument,
                "The drawing ID is invalid"@,
            ),
        },
{
    match DrawingId::from_number(id) {
        Some(parsed) => Ok(parsed),
        None => Err(Status::invalid_argument("The drawing ID is invalid")),
    }
}

/// The kind of refusal that an error makes, where `kind` is the condition that it stands
/// for.
pub open spec fn error_code(error: ErrorView, kind: Option<DrawingErrorKind>) -> Code {
    if error is DocumentNotFound {
        Code::NotFound
    } else if kind == Some(DrawingErrorKind::ReadinessTimedOut) {
        Code::DeadlineExceeded
    } else if error.internal() {
        Code::Internal
    } else {
        Code::FailedPrecondition
    }
}

/// The refusal that an error makes.
pub open spec fn refusal(
    error: ErrorView,
    kind: Option<DrawingErrorKind>,
    drawing_id: Option<DrawingId>,
) -> StatusView {
    StatusView {
        code: error_code(error, kind),
        detail: match kind {
            Some(kind) => DetailView::Drawing { kind, drawing_id },
            None => DetailView::Message(error.message()),
        },
    }
}

/// The refusal that an error makes: with the condition that it stands for, where clients
/// know it, else with its text.
pub fn scheduler_error(
    error: &Error,
    kind: Option<DrawingErrorKind>,
    drawing_id: Option<DrawingId>,
) -> (status: Status)
    ensures
        status@ == refusal(error@, kind, drawing_id),
{
    let timed_out = match kind {
        Some(DrawingErrorKind::ReadinessTimedOut) => true,
        _ => false,
    };
    let code = match error {
        Error::DocumentNotFound(_) => Code::NotFound,
        _ => if timed_out {
            Code::DeadlineExceeded
        } else if error.is_internal() {
            Code::Internal
        } else {
            Code::FailedPrecondition
        },
    };
    match kind {
        Some(kind) => Status { code, detail: Detail::Drawing { kind, drawing_id } },
        None => Status { code, detail: Detail::Message(error.message()) },
    }
}

/// A refusal never claims that the plugin is at fault where the request is, nor the other
/// way round.
pub proof fn law_internal_errors_are_internal(error: ErrorView)
    ensures
        error_code(error, None) is Internal <==> error.internal(),
{
}

} // verus!
