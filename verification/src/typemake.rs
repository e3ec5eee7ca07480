//! typemake's high-level mode of operation.

use vstd::prelude::*;

use crate::cli::CliArguments;
use crate::error::{TypemakeError, TypemakeResult};
use crate::interpreter::Interpreter;
use crate::parser::grammar::parse_typefile_spec;
use crate::parser::parse_typefile_content;

verus! {

/// Runs typemake on the given typefile content.
/// This is the entry point into typemake's business logic: the typefile is
/// parsed, an interpreter is created, and the initialization text of the
/// parsed workflow is handed to it for execution.
///
/// Reading the typefile named by `cli_arguments` is I/O and is done by the
/// caller, which passes the content here. Whether interpreter creation and
/// script execution succeed is up to the chosen [`Interpreter`]
/// implementation; what this function guarantees is that a typefile that
/// does not parse is reported with exactly the parser's error, and that
/// nothing runs unless the typefile parsed.
#[allow(unused_variables)]
pub fn run_typemake_from_cli<InterpreterType: Interpreter>(
    cli_arguments: &CliArguments,
    typefile_content: &str,
) -> (r: TypemakeResult<()>)
    ensures
        parse_typefile_spec(typefile_content@) matches Err(m) ==> (r matches Err(
            TypemakeError::ParserError(msg),
        ) && msg@ == m),
        r is Ok ==> parse_typefile_spec(typefile_content@) is Ok,
{
    let workflow = match parse_typefile_content(typefile_content) {
        Ok(workflow) => workflow,
        Err(e) => {
            return Err(e);
        },
    };
    let mut interpreter = match InterpreterType::new() {
        Ok(interpreter) => interpreter,
        Err(e) => {
            return Err(e);
        },
    };
    let _version = match interpreter.version() {
        Ok(version) => version,
        Err(e) => {
            return Err(e);
        },
    };
    match interpreter.run(workflow.code_lines.as_str()) {
        Ok(_) => {},
        Err(e) => {
            return Err(e);
        },
    }
    Ok(())
}

} // verus!
