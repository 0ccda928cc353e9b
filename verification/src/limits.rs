//! Size limits that the plugin shares with its clients.
use vstd::prelude::*;

verus! {

/// The size of one execution source, without its byte-order mark.
pub const MAX_EXECUTION_SOURCE_BYTES: usize = 4194304;

/// The size of a source name.
pub const MAX_SOURCE_NAME_BYTES: usize = 4096;

/// The size of one diagnostic, with its truncation mark.
pub const MAX_DIAGNOSTIC_BYTES: usize = 16384;

} // verus!
