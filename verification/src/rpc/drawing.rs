//! What clients of drawings are answered.
use vstd::prelude::*;

use super::status;
use super::status::{scheduler_error, Code, Detail, DetailView, Status, StatusView};
use crate::drawing::{Drawing, DrawingNameView};
use crate::exec::outcome::DrawingErrorKind;
use crate::ids::DrawingId;
use crate::naming;
use crate::scheduler::error::Error;

verus! {

/// Why a path names no drawing file.
#[derive(Clone, Copy, Debug, PartialEq, Eq, Structural)]
pub enum DrawingPathError {
    NotDwg,
    NotAbsolute,
    TooLong,
    NotFile,
    Resolve,
    InvalidUtf8,
    AlreadyExists,
}

/// How finely the view of a drawing is shown.
#[derive(Clone, Copy, Debug, PartialEq, Eq, Structural)]
pub enum ResolutionPolicy {
    Default,
    Wide,
}

/// A drawing as clients see it.
#[derive(Debug, PartialEq, Eq)]
pub struct RpcDrawing {
    pub id: u16,
    pub display_name: String,
    pub file_path: Option<String>,
    pub modified: bool,
    pub read_only: bool,
    pub active: bool,
}

/// What is said of a path that names no drawing file.
pub open spec fn path_message(error: DrawingPathError) -> Seq<char> {
    match error {
        DrawingPathError::NotDwg => "Only DWG drawings can be opened"@,
        DrawingPathError::NotAbsolute => "The drawing path must be absolute"@,
        DrawingPathError::TooLong => "The drawing path exceeds the 32 KiB limit"@,
        _ => "The drawing path is invalid"@,
    }
}

/// The refusal of a path that names no drawing file.
pub fn drawing_path_status(error: DrawingPathError) -> (status: Status)
    ensures
        status@ == status::plain(Code::InvalidArgument, path_message(error)),
{
    let message = match error {
        DrawingPathError::NotDwg => "Only DWG drawings can be opened",
        DrawingPathError::NotAbsolute => "The drawing path must be absolute",
        DrawingPathError::TooLong => "The drawing path exceeds the 32 KiB limit",
        DrawingPathError::NotFile
        | DrawingPathError::Resolve
        | DrawingPathError::InvalidUtf8
        | DrawingPathError::AlreadyExists => "The drawing path is invalid",
    };
    Status::invalid_argument(message)
}

/// The refusal of an undone or redone step: where the document could not be left safely,
/// it is unknown what became of the step.
pub fn history_error(
    error: &Error,
    kind: Option<DrawingErrorKind>,
    drawing_id: Option<DrawingId>,
) -> (status: Status)
    ensures
        status@ == if error@ is DocumentContextRestoreFailed {
            StatusView {
                code: Code::Internal,
                detail: DetailView::Drawing {
                    kind: DrawingErrorKind::HistoryOutcomeUnknown,
                    drawing_id: None,
                },
            }
        } else {
            status::refusal(error@, kind, drawing_id)
        },
{
    match error {
        Error::DocumentContextRestoreFailed(_) => Status {
            code: Code::Internal,
            detail: Detail::Drawing {
                kind: DrawingErrorKind::HistoryOutcomeUnknown,
                drawing_id: None,
            },
        },
        _ => scheduler_error(error, kind, drawing_id),
    }
}

/// A drawing as clients see it.
pub fn rpc_drawing(drawing: &Drawing) -> (shown: RpcDrawing)
    ensures
        shown.id == drawing@.id,
        shown.modified == drawing.modified,
        shown.read_only == drawing.read_only,
        shown.active == drawing.active,
        match drawing@.name {
            DrawingNameView::Named(path) => {
                &&& shown.file_path matches Some(shown_path) && shown_path@ == path
                &&& naming::shows(shown.display_name@, path)
            },
            DrawingNameView::Unnamed(name) => {
                &&& shown.file_path is None
                &&& shown.display_name@ == name
            },
        },
{
    let file_path = match drawing.file_path() {
        Some(path) => Some(path.to_owned()),
        None => None,
    };
    RpcDrawing {
        id: drawing.id.value(),
        display_name: drawing.display_name().to_owned(),
        file_path,
        modified: drawing.modified,
        read_only: drawing.read_only,
        active: drawing.active,
    }
}

/// How finely a view is shown, and how many pixels its longer edge has at most.
pub fn capture_resolution(wide: bool) -> (resolution: (ResolutionPolicy, u32))
    ensures
        resolution == if wide {
            (ResolutionPolicy::Wide, 1024u32)
        } else {
            (ResolutionPolicy::Default, 512u32)
        },
{
    if wide {
        (ResolutionPolicy::Wide, 1024)
    } else {
        (ResolutionPolicy::Default, 512)
    }
}

/// What is to be said with a view that was shown.
pub fn capture_warnings(realistic_style: bool) -> (warnings: Vec<String>)
    ensures
        warnings@.len() == if realistic_style {
            1nat
        } else {
            0nat
        },
        realistic_style ==> warnings@[0]@
            == "Realistic visual style may capture only the viewport background on some drawings."@,
{
    let mut warnings: Vec<String> = Vec::new();
    if realistic_style {
        warnings.push(
            "Realistic visual style may capture only the viewport background on some drawings.".to_owned(),
        );
    }
    warnings
}

} // verus!
