//! What clients are answered.
pub mod doc;
pub mod drawing;
pub mod exec;
pub mod laws;
pub mod server;
pub mod status;
