pub mod compiler;
pub mod scanner;

use vstd::prelude::*;

use crate::vm::scanner::model::spec_has_error;

verus! {

/// The outcome of interpreting a source text.  The virtual machine proper is
/// an external collaborator; within this crate only the compile stage (the
/// scan of the token stream) can fail.
#[derive(Debug, PartialEq, Eq, Structural)]
pub enum InterpreterResult {
    InterpreterOk,
    InterpreterCompileError,
}

/// Interprets a source text: compiles it and, on success, hands the
/// resulting function to the (external, stubbed) virtual machine.  The run
/// succeeds exactly when the token stream holds no `Error` token.
pub fn interpret(source: &str) -> (r: InterpreterResult)
    requires
        source@.len() < 0xFFFF_FFFF,
    ensures
        (r is InterpreterOk) <==> !spec_has_error(source@, 0),
{
    match compiler::compile(source) {
        Some(_function) => InterpreterResult::InterpreterOk,
        None => InterpreterResult::InterpreterCompileError,
    }
}

} // verus!
