//! The error types of typemake.

use vstd::prelude::*;

verus! {

/// The main error type of typemake, wrapping all error types that may occur.
#[derive(Debug, Clone, PartialEq, Eq)]
pub enum TypemakeError {
    /// An error that occurred in the typefile parser.
    ParserError(String),
    /// An I/O error, carrying the description of the causing system error.
    IoError(String),
    /// An error that occurred in the script interpreter.
    InterpreterError(String),
    /// An error that does not fit into the other categories.
    GeneralError(String),
}

/// An alias of `Result` with `TypemakeError` as error type.
pub type TypemakeResult<T> = Result<T, TypemakeError>;

/// The description carried by an error, independent of its category.
pub open spec fn spec_error_message(e: TypemakeError) -> Seq<char> {
    match e {
        TypemakeError::ParserError(m) => m@,
        TypemakeError::IoError(m) => m@,
        TypemakeError::InterpreterError(m) => m@,
        TypemakeError::GeneralError(m) => m@,
    }
}

impl TypemakeError {
    /// Returns the human-readable description carried by this error.
    pub fn message(&self) -> (m: String)
        ensures
            m@ == spec_error_message(*self),
    {
        match self {
            TypemakeError::ParserError(m) => m.clone(),
            TypemakeError::IoError(m) => m.clone(),
            TypemakeError::InterpreterError(m) => m.clone(),
            TypemakeError::GeneralError(m) => m.clone(),
        }
    }
}

} // verus!
