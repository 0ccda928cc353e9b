//! Verified core of the acadctl AutoCAD plugin.

pub mod bridge;
pub mod bridge_protocol;
pub mod doc;
pub mod documents;
pub mod drawing;
pub mod exec;
pub mod execution;
pub mod history;
pub mod identity;
pub mod ids;
pub mod limits;
pub mod naming;
pub mod native;
pub mod native_actions;
pub mod printing;
pub mod readback;
pub mod reading;
pub mod registry;
pub mod rpc;
pub mod rpc_server;
pub mod scheduler;
pub mod template;
pub mod text;
