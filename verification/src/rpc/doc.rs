//! What clients of documents are answered.
use vstd::prelude::*;

use super::status;
use super::status::{Code, Status};
use crate::doc::Doc;
use crate::ids;
use crate::ids::DocId;

pub use super::drawing::{drawing_path_status, DrawingPathError};

verus! {

/// A document as clients see it.
#[derive(Debug, PartialEq, Eq)]
pub struct RpcDoc {
    pub id: u16,
    pub display_name: String,
    pub file_path: Option<String>,
    pub modified: bool,
    pub read_only: bool,
}

/// A document as clients see it.
pub fn rpc_doc(document: Doc) -> (shown: RpcDoc)
    ensures
        shown.id == document@.id,
        shown.display_name@ == document@.display_name,
        match shown.file_path {
            Some(path) => document@.file_path == Some(path@),
            None => document@.file_path is None,
        },
        shown.modified == document.modified,
        shown.read_only == document.read_only,
{
    RpcDoc {
        id: document.id.value(),
        display_name: document.display_name,
        file_path: document.file_path,
        modified: document.modified,
        read_only: document.read_only,
    }
}

/// The document that four hexadecimal digits stand for.
pub fn parse_document_id(id: &str) -> (parsed: Result<DocId, Status>)
    ensures
        match parsed {
            Ok(parsed) => ids::hex_number(id@) == Some(parsed@),
            Err(status) => ids::hex_number(id@) is None && status@ == status::plain(
                Code::InvalidArgument,
                "The document ID is invalid"@,
            ),
        },
{
    match DocId::from_hex(id) {
        Some(parsed) => Ok(parsed),
        None => Err(Status::invalid_argument("The document ID is invalid")),
    }
}

} // verus!
