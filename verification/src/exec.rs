//! The compiled script and its execution, under one path.

pub use crate::bytecode::DirectScript;
pub use crate::compiler::{construct_script_from_ast, CompileError};
pub use crate::interpreter::{DirectExecution, Environment, ExecutionStep, StepError, Variant};
pub use crate::store::Variables;
