//! A workflow engine built around a line-oriented, indentation-sensitive
//! definition file (a "typefile").
//!
//! The heart of the crate is the typefile parser: it classifies lines,
//! tracks nested indentation, assembles multi-line property values and
//! reports precise, two-tier parse errors. Script execution and workflow
//! scheduling are external collaborators and are not part of this crate's
//! verified logic.

pub mod cli;
pub mod error;
pub mod interpreter;
pub mod parser;
pub mod typemake;
pub mod workflow;
