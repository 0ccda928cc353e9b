//! Executions of AutoLISP source: the steps that the native side carries out,
//! and what becomes of them.
pub mod diagnostic;
pub mod io;
pub mod label;
pub mod laws;
pub mod lisp;
pub mod outcome;
pub mod output;
pub mod println;
pub mod protocol;
pub mod source;
pub mod state;
pub mod trail;
pub mod value;

pub use crate::native::NativeExecStepKind as ExecStepKind;
pub use crate::native::NativeExecStepResult as ExecStepResult;
pub use crate::native::NativeExecStepResultKind as ExecStepResultKind;
