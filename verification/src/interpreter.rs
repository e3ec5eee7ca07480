//! The interpreter used to evaluate scripts in the typemake file.
//!
//! Concrete interpreters live outside this crate; they only have to
//! implement the [`Interpreter`] trait.

use vstd::prelude::*;

use crate::error::TypemakeResult;

verus! {

/// An interpreter for scripts given in the typefile.
pub trait Interpreter: Sized {
    /// Creates a new interpreter instance.
    /// Interpreters might be limited to a single instance.
    fn new() -> TypemakeResult<Self>;

    /// Runs the given code.
    fn run(&mut self, script: &str) -> TypemakeResult<()>;

    /// Returns the version of the interpreter.
    fn version(&self) -> TypemakeResult<String>;
}

} // verus!
