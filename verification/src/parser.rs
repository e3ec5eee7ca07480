//! The typefile parser.
//!
//! A typefile is a line-oriented, indentation-sensitive text. Every line is
//! either part of a tool block (`tool <name>:` followed by indented
//! properties) or an opaque initialization line. The parser turns the whole
//! text into a [`Typefile`]: the initialization lines concatenated in file
//! order, plus the declared tools keyed by their unique names.
//!
//! The grammar is defined once, mathematically, in [`grammar`]; the
//! executable parser here is verified to return exactly what the grammar
//! functions define, for every input.

pub mod engine;
pub mod grammar;
pub mod laws;
pub mod text;

use vstd::prelude::*;

use crate::error::{TypemakeError, TypemakeResult};
use crate::parser::grammar::{empty_typefile_view, parse_typefile_spec, TypefileView};
use crate::workflow::{Tool, ToolView};

verus! {

/// The grammar rule that reported a recoverable failure.
#[derive(Debug, Clone, PartialEq, Eq)]
pub enum RuleKind {
    /// A literal piece of text, such as the keyword `tool` or a colon, did
    /// not match.
    Tag,
    /// At least one space or tab was required.
    Space,
    /// An identifier was required.
    Identifier,
    /// At least one line ending was required.
    LineEnding,
}

/// One step of the diagnostic trace of a recoverable failure: the input
/// position at which a grammar rule was tried, and which rule it was.
#[derive(Debug, Clone, PartialEq, Eq)]
pub struct TraceEntry {
    /// The position in the input, counted in characters, where the rule was tried.
    pub position: usize,
    /// The grammar rule that did not match.
    pub kind: RuleKind,
}

/// A parse failure, classified by severity.
///
/// A recoverable failure means the attempted grammar rule did not match the
/// input; a sibling alternative may still be tried. A terminal failure means
/// the input matched the rule's shape but violated a semantic constraint; no
/// alternative is tried and the whole parse aborts.
#[derive(Debug, Clone, PartialEq, Eq)]
pub enum ParserError {
    /// The attempted rule did not match; carries a diagnostic trace.
    Recoverable(Vec<TraceEntry>),
    /// A semantic constraint was violated; carries a human-readable message.
    Terminal(String),
}

/// The result of one parsing step: the parsed value together with the
/// cursor position past it, or a [`ParserError`].
pub type ParserResult<T> = Result<(T, usize), ParserError>;

/// The views of the tools in a vector, in the same order.
pub open spec fn tools_view(tools: Seq<Tool>) -> Seq<ToolView> {
    tools.map_values(|t: Tool| t@)
}

/// The result of parsing a whole typefile: the initialization text in file
/// order, with each opaque line terminated by a single line feed, and the
/// declared tools in declaration order. The parser guarantees that the tool
/// names are pairwise distinct; lookup is by name.
#[derive(Debug, Clone, PartialEq, Eq)]
pub struct Typefile {
    /// The initialization text handed verbatim to the script interpreter.
    pub code_lines: String,
    /// The declared tools, in declaration order, with pairwise distinct names.
    pub tools: Vec<Tool>,
}

impl View for Typefile {
    type V = TypefileView;

    open spec fn view(&self) -> TypefileView {
        TypefileView { code_lines: self.code_lines@, tools: tools_view(self.tools@) }
    }
}

impl Default for Typefile {
    fn default() -> (r: Self)
        ensures
            r@ == empty_typefile_view(),
    {
        let r = Self { code_lines: String::new(), tools: Vec::new() };
        proof {
            assert(r@ =~= empty_typefile_view());
        }
        r
    }
}

impl Typefile {
    /// Returns the tool declared under `name`, if any.
    pub fn get_tool(&self, name: &String) -> (r: Option<&Tool>)
        ensures
            match r {
                Some(tool) => exists|i: int|
                    0 <= i < self@.tools.len() && (#[trigger] self@.tools[i]) == tool@
                        && tool@.name == name@,
                None => !grammar::tools_contain_name(self@.tools, name@),
            },
    {
        let mut i: usize = 0;
        while i < self.tools.len()
            invariant
                0 <= i <= self.tools@.len(),
                forall|j: int|
                    0 <= j < i ==> (#[trigger] tools_view(self.tools@)[j]).name != name@,
            decreases self.tools@.len() - i,
        {
            if self.tools[i].name == *name {
                proof {
                    assert(self@.tools[i as int] == self.tools@[i as int]@);
                }
                return Some(&self.tools[i]);
            }
            i = i + 1;
        }
        None
    }
}

/// Converts a parse failure into the error value reported to callers.
fn report_parser_error(e: ParserError) -> (r: TypemakeError)
    ensures
        e matches ParserError::Terminal(t) ==> (r matches TypemakeError::ParserError(m) && m@
            == t@),
        r is ParserError,
{
    match e {
        ParserError::Terminal(message) => TypemakeError::ParserError(message),
        ParserError::Recoverable(_) => TypemakeError::ParserError(
            String::from_str("the parser reported a recoverable error at the top level"),
        ),
    }
}

/// Parses the given typefile text. This is the pure parsing entry point:
/// it performs no I/O and its result is a function of the text alone, so
/// parsing is deterministic and total over the declared grammar.
///
/// Returns the parsed typefile exactly as the specification-level grammar
/// defines it, or the terminal error message that aborted the parse.
pub fn parse_typefile_content(typefile_content: &str) -> (r: TypemakeResult<Typefile>)
    ensures
        match parse_typefile_spec(typefile_content@) {
            Ok(tf) => r matches Ok(t) && t@ == tf,
            Err(m) => r matches Err(TypemakeError::ParserError(msg)) && msg@ == m,
        },
        r matches Ok(t) ==> laws::tool_names_unique(t@.tools),
{
    proof {
        laws::lemma_parsed_tool_names_unique(typefile_content@);
    }
    let chars = text::str_to_chars(typefile_content);
    match engine::toplevel_items(&chars) {
        Ok(items) => match engine::assemble(items) {
            Ok(typefile) => Ok(typefile),
            Err(e) => Err(report_parser_error(e)),
        },
        Err(e) => Err(report_parser_error(e)),
    }
}

} // verus!
