//! The command line interface of typemake.

use vstd::prelude::*;

verus! {

/// The command line arguments of a typemake run.
#[derive(Debug, Clone, PartialEq, Eq)]
pub struct CliArguments {
    /// The path to the root typefile.
    pub typefile: String,

    /// A list of targets for the workflow.
    pub targets: Vec<String>,
}

impl Default for CliArguments {
    fn default() -> (r: Self)
        ensures
            r.typefile@ == "Typefile"@,
            r.targets@.len() == 0,
    {
        Self { typefile: String::from_str("Typefile"), targets: Vec::new() }
    }
}

} // verus!
