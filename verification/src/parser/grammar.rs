//! The specification-level grammar of a typefile.
//!
//! These spec functions define, over a sequence of characters and an
//! immutable cursor, exactly what the parser recognises and what it
//! produces. The executable parser is verified to return precisely the
//! values defined here; parsing is therefore deterministic and total by
//! construction, since these are mathematical functions of the input alone.
//!
//! The shape of the recognised text, informally: a file is a sequence of
//! items, where an item is either a tool block or an opaque line. A tool
//! block is a header line `tool <identifier>:` followed by its properties,
//! each written `<name>: <value>` at the block's fixed indentation, with a
//! value optionally continued over more deeply indented lines. An opaque
//! line is anything else, including an empty line. Indentation comparison
//! is a literal string-prefix test on spaces and tabs, with no tab-width
//! normalization.
//!
//! Failures come in two severities. A grammar rule that does not match is
//! recoverable and is expressed here as `None`: a sibling alternative may be
//! tried. A semantic violation — duplicate tool name, duplicate property,
//! empty property value, inconsistent indentation after a block — is
//! terminal and is expressed as `Err` carrying the reported message.

use vstd::prelude::*;

use crate::parser::text::{
    is_space_char, scan_blank_lines, scan_eol_run, scan_identifier, scan_line_content,
    scan_line_endings, scan_spaces, seq_at, trim_ws, ws_only, lemma_scan_blank_lines,
    lemma_scan_eol_run, lemma_scan_identifier, lemma_scan_line_content, lemma_scan_line_endings,
    lemma_scan_spaces,
};
use crate::workflow::{ToolPropertyStageView, ToolPropertyView, ToolView};

verus! {

/// A parsed toplevel item, as seen in specifications: either an opaque
/// initialization line or a fully parsed tool block.
#[verifier::ext_equal]
pub enum ToplevelDefinitionView {
    /// An opaque initialization line, captured verbatim without its line ending.
    CodeLine(Seq<char>),
    /// A fully parsed tool block.
    Tool(ToolView),
}

/// A parsed typefile, as seen in specifications: the initialization lines
/// concatenated in file order, each terminated by a single line feed, and
/// the declared tools in declaration order with pairwise distinct names.
#[verifier::ext_equal]
pub struct TypefileView {
    /// The view of the initialization text handed to the script interpreter.
    pub code_lines: Seq<char>,
    /// The views of the declared tools, in declaration order.
    pub tools: Seq<ToolView>,
}

/// The empty parse result: no initialization text and no tools.
pub open spec fn empty_typefile_view() -> TypefileView {
    TypefileView { code_lines: Seq::empty(), tools: Seq::empty() }
}

// ------------------------------------------------------------------
// Terminal error messages.
// ------------------------------------------------------------------

/// The message reported when a tool name is declared twice in one file.
pub open spec fn duplicate_tool_message(name: Seq<char>) -> Seq<char> {
    "Tool already exists: "@ + name
}

/// The message reported when one property is defined twice on the same tool.
pub open spec fn duplicate_property_message() -> Seq<char> {
    "Found a property that is defined more than once on the same tool."@
}

/// The message reported when a defined property carries no value.
pub open spec fn empty_property_value_message() -> Seq<char> {
    "Found an empty property value. A property that is defined must carry a non-empty value."@
}

/// The message reported when an indented line follows a completed tool block.
pub open spec fn indented_line_message() -> Seq<char> {
    "Found an indented line after the end of a tool definition. This means that either after the tool definition, there is an indented line that should not be indented, or the indentation of the tool definition is inconsistent."@
}

// ------------------------------------------------------------------
// Lines.
// ------------------------------------------------------------------

/// The content of the line starting at `pos`, without its line ending.
pub open spec fn line_content(s: Seq<char>, pos: int) -> Seq<char> {
    s.subrange(pos, scan_line_content(s, pos))
}

/// The position just past the line starting at `pos` and past the whole run
/// of line-end characters that follows it.
pub open spec fn line_next(s: Seq<char>, pos: int) -> int {
    scan_eol_run(s, scan_line_content(s, pos))
}

/// The decomposition of the text from `pos` on into scanned lines.
pub open spec fn split_lines(s: Seq<char>, pos: int) -> Seq<Seq<char>>
    decreases s.len() - pos,
    when 0 <= pos <= s.len()
    via split_lines_decreases
{
    if pos >= s.len() {
        Seq::empty()
    } else {
        seq![line_content(s, pos)] + split_lines(s, line_next(s, pos))
    }
}

#[via_fn]
proof fn split_lines_decreases(s: Seq<char>, pos: int) {
    lemma_line_next(s, pos);
}

/// Bounds and progress of `line_next`.
pub proof fn lemma_line_next(s: Seq<char>, pos: int)
    requires
        0 <= pos <= s.len(),
    ensures
        pos <= line_next(s, pos) <= s.len(),
        pos < s.len() ==> pos < line_next(s, pos),
{
    lemma_scan_line_content(s, pos);
    let content_end = scan_line_content(s, pos);
    lemma_scan_eol_run(s, content_end);
}

// ------------------------------------------------------------------
// The tool block header.
// ------------------------------------------------------------------

/// True if the keyword `tool` occurs at `pos`.
pub open spec fn tool_keyword_at(s: Seq<char>, pos: int) -> bool {
    &&& 0 <= pos
    &&& pos + 4 <= s.len()
    &&& s[pos] == 't'
    &&& s[pos + 1] == 'o'
    &&& s[pos + 2] == 'o'
    &&& s[pos + 3] == 'l'
}

/// The header of a tool block: the keyword `tool`, at least one space, an
/// identifier, a colon, optional trailing spaces and at least one line
/// ending. Returns the tool name and the position past the header, or
/// `None` if the header does not match here (a recoverable failure).
pub open spec fn parse_tool_header(s: Seq<char>, pos: int) -> Option<(Seq<char>, int)> {
    if !tool_keyword_at(s, pos) {
        None
    } else {
        let space_end = scan_spaces(s, pos + 4);
        if space_end == pos + 4 {
            None
        } else {
            let name_end = scan_identifier(s, space_end);
            if name_end == space_end {
                None
            } else if !(name_end < s.len() && s[name_end] == ':') {
                None
            } else {
                let trail_end = scan_spaces(s, name_end + 1);
                let endings_end = scan_line_endings(s, trail_end);
                if endings_end > trail_end {
                    Some((s.subrange(space_end, name_end), endings_end))
                } else {
                    None
                }
            }
        }
    }
}

/// Bounds and progress of a successful header parse.
pub proof fn lemma_parse_tool_header_bounds(s: Seq<char>, pos: int)
    requires
        0 <= pos <= s.len(),
        parse_tool_header(s, pos) is Some,
    ensures
        pos < parse_tool_header(s, pos)->Some_0.1 <= s.len(),
{
    lemma_scan_spaces(s, pos + 4);
    let space_end = scan_spaces(s, pos + 4);
    lemma_scan_identifier(s, space_end);
    let name_end = scan_identifier(s, space_end);
    lemma_scan_spaces(s, name_end + 1);
    let trail_end = scan_spaces(s, name_end + 1);
    lemma_scan_line_endings(s, trail_end);
}

// ------------------------------------------------------------------
// Properties.
// ------------------------------------------------------------------

/// True if the property name `script` followed by a colon occurs at `pos`.
pub open spec fn script_property_at(s: Seq<char>, pos: int) -> bool {
    &&& 0 <= pos
    &&& pos + 7 <= s.len()
    &&& s[pos] == 's'
    &&& s[pos + 1] == 'c'
    &&& s[pos + 2] == 'r'
    &&& s[pos + 3] == 'i'
    &&& s[pos + 4] == 'p'
    &&& s[pos + 5] == 't'
    &&& s[pos + 6] == ':'
}

/// True if the property name `interpreter` followed by a colon occurs at
/// `pos`. This is an alternative spelling for the script property.
pub open spec fn interpreter_property_at(s: Seq<char>, pos: int) -> bool {
    &&& 0 <= pos
    &&& pos + 12 <= s.len()
    &&& s[pos] == 'i'
    &&& s[pos + 1] == 'n'
    &&& s[pos + 2] == 't'
    &&& s[pos + 3] == 'e'
    &&& s[pos + 4] == 'r'
    &&& s[pos + 5] == 'p'
    &&& s[pos + 6] == 'r'
    &&& s[pos + 7] == 'e'
    &&& s[pos + 8] == 't'
    &&& s[pos + 9] == 'e'
    &&& s[pos + 10] == 'r'
    &&& s[pos + 11] == ':'
}

/// True if the line starting at `pos` is indented strictly deeper than
/// `indentation`, by literal string-prefix comparison. There is no tab/space
/// equivalence: the line's leading whitespace must literally extend
/// `indentation`.
pub open spec fn deeper_indentation_at(s: Seq<char>, pos: int, indentation: Seq<char>) -> bool {
    scan_spaces(s, pos) - pos > indentation.len() && seq_at(s, pos, indentation)
}

/// Collects the continuation lines of a property value.
///
/// Starting at `pos`, a line is consumed if it either literally starts with
/// the deeper indentation `deep` and has non-empty content after it (its
/// content is appended to `acc` behind a line feed unless the content is
/// whitespace-only), or if it is blank. The first line that is neither ends
/// the continuation. Returns the assembled text and the stop position.
pub open spec fn scan_continuation(s: Seq<char>, pos: int, deep: Seq<char>, acc: Seq<char>) -> (
    Seq<char>,
    int,
)
    decreases s.len() - pos,
    when 0 <= pos <= s.len() && deep.len() >= 1
    via scan_continuation_decreases
{
    let content_start = pos + deep.len();
    if seq_at(s, pos, deep) && scan_line_content(s, content_start) > content_start {
        let content_end = scan_line_content(s, content_start);
        let content = s.subrange(content_start, content_end);
        let next = scan_eol_run(s, content_end);
        if ws_only(content) {
            scan_continuation(s, next, deep, acc)
        } else {
            scan_continuation(s, next, deep, acc + seq!['\n'] + content)
        }
    } else {
        let spaces_end = scan_spaces(s, pos);
        let endings_end = scan_line_endings(s, spaces_end);
        if endings_end > spaces_end {
            scan_continuation(s, endings_end, deep, acc)
        } else {
            (acc, pos)
        }
    }
}

#[via_fn]
proof fn scan_continuation_decreases(s: Seq<char>, pos: int, deep: Seq<char>, acc: Seq<char>) {
    if 0 <= pos && pos + deep.len() <= s.len() {
        lemma_scan_line_content(s, pos + deep.len());
        lemma_scan_eol_run(s, scan_line_content(s, pos + deep.len()));
    }
    if 0 <= pos <= s.len() {
        lemma_scan_spaces(s, pos);
        lemma_scan_line_endings(s, scan_spaces(s, pos));
    }
}

/// Bounds of `scan_continuation`: the stop position lies between `pos` and
/// the end of the text.
pub proof fn lemma_scan_continuation_bounds(s: Seq<char>, pos: int, deep: Seq<char>, acc: Seq<char>)
    requires
        0 <= pos <= s.len(),
        deep.len() >= 1,
    ensures
        pos <= scan_continuation(s, pos, deep, acc).1 <= s.len(),
    decreases s.len() - pos,
{
    let content_start = pos + deep.len();
    if seq_at(s, pos, deep) && scan_line_content(s, content_start) > content_start {
        lemma_scan_line_content(s, content_start);
        let content_end = scan_line_content(s, content_start);
        lemma_scan_eol_run(s, content_end);
        let next = scan_eol_run(s, content_end);
        let content = s.subrange(content_start, content_end);
        if ws_only(content) {
            lemma_scan_continuation_bounds(s, next, deep, acc);
        } else {
            lemma_scan_continuation_bounds(s, next, deep, acc + seq!['\n'] + content);
        }
    } else {
        lemma_scan_spaces(s, pos);
        let spaces_end = scan_spaces(s, pos);
        lemma_scan_line_endings(s, spaces_end);
        let endings_end = scan_line_endings(s, spaces_end);
        if endings_end > spaces_end {
            lemma_scan_continuation_bounds(s, endings_end, deep, acc);
        }
    }
}

/// The value of one property definition starting just past its colon at
/// `pos`: optional spaces, the rest of the header line, and, if the next
/// line is indented strictly deeper than `indentation`, all continuation
/// lines; the assembled text is trimmed of leading and trailing whitespace.
/// Returns the trimmed value and the position past the definition.
pub open spec fn parse_property_value(s: Seq<char>, pos: int, indentation: Seq<char>) -> (
    Seq<char>,
    int,
) {
    let first_start = scan_spaces(s, pos);
    let first_end = scan_line_content(s, first_start);
    let first = s.subrange(first_start, first_end);
    let after_line = scan_eol_run(s, first_end);
    if deeper_indentation_at(s, after_line, indentation) {
        let deep_end = scan_spaces(s, after_line);
        let deep = s.subrange(after_line, deep_end);
        let r = scan_continuation(s, after_line, deep, first);
        (trim_ws(r.0), r.1)
    } else {
        (trim_ws(first), after_line)
    }
}

/// Bounds of `parse_property_value`.
pub proof fn lemma_parse_property_value_bounds(s: Seq<char>, pos: int, indentation: Seq<char>)
    requires
        0 <= pos <= s.len(),
    ensures
        pos <= parse_property_value(s, pos, indentation).1 <= s.len(),
{
    lemma_scan_spaces(s, pos);
    let first_start = scan_spaces(s, pos);
    lemma_scan_line_content(s, first_start);
    let first_end = scan_line_content(s, first_start);
    lemma_scan_eol_run(s, first_end);
    let after_line = scan_eol_run(s, first_end);
    if deeper_indentation_at(s, after_line, indentation) {
        lemma_scan_spaces(s, after_line);
        let deep_end = scan_spaces(s, after_line);
        let deep = s.subrange(after_line, deep_end);
        let first = s.subrange(first_start, first_end);
        lemma_scan_continuation_bounds(s, after_line, deep, first);
    }
}

// ------------------------------------------------------------------
// Tool blocks.
// ------------------------------------------------------------------

/// A tool with the given name and no properties set.
pub open spec fn empty_tool(name: Seq<char>) -> ToolView {
    ToolView {
        name,
        script: ToolPropertyView {
            string_value: Seq::empty(),
            value_stage: ToolPropertyStageView::Empty,
        },
    }
}

/// `tool` with its script property set to the raw value `value`.
pub open spec fn tool_with_script(tool: ToolView, value: Seq<char>) -> ToolView {
    ToolView {
        name: tool.name,
        script: ToolPropertyView { string_value: value, value_stage: ToolPropertyStageView::Raw },
    }
}

/// Ends a tool block: skips trailing blank lines, then requires that the
/// next line does not begin with a space or tab. A line that still does is
/// a terminal error: either it should not be indented, or the indentation
/// of the tool definition is inconsistent.
pub open spec fn finish_block(s: Seq<char>, pos: int, tool: ToolView) -> Result<
    (ToolView, int),
    Seq<char>,
> {
    let b = scan_blank_lines(s, pos);
    if b < s.len() && is_space_char(s[b]) {
        Err(indented_line_message())
    } else {
        Ok((tool, b))
    }
}

/// Parses the properties of a tool block at the fixed `indentation`.
///
/// Repeatedly: skip blank lines, require the indentation as a literal
/// prefix, then try the recognised property names in a fixed priority
/// order. A position where no property matches ends the block via
/// [`finish_block`]. A property that is already set on the tool, or whose
/// trimmed value is empty, is a terminal error.
pub open spec fn parse_properties(
    s: Seq<char>,
    pos: int,
    indentation: Seq<char>,
    tool: ToolView,
) -> Result<(ToolView, int), Seq<char>>
    decreases s.len() - pos,
    when 0 <= pos <= s.len() && indentation.len() >= 1
    via parse_properties_decreases
{
    let b = scan_blank_lines(s, pos);
    if seq_at(s, b, indentation) {
        let p = b + indentation.len();
        if script_property_at(s, p) {
            if !(tool.script.value_stage is Empty) {
                Err(duplicate_property_message())
            } else {
                let r = parse_property_value(s, p + 7, indentation);
                if r.0.len() == 0 {
                    Err(empty_property_value_message())
                } else {
                    parse_properties(s, r.1, indentation, tool_with_script(tool, r.0))
                }
            }
        } else if interpreter_property_at(s, p) {
            if !(tool.script.value_stage is Empty) {
                Err(duplicate_property_message())
            } else {
                let r = parse_property_value(s, p + 12, indentation);
                if r.0.len() == 0 {
                    Err(empty_property_value_message())
                } else {
                    parse_properties(s, r.1, indentation, tool_with_script(tool, r.0))
                }
            }
        } else {
            finish_block(s, pos, tool)
        }
    } else {
        finish_block(s, pos, tool)
    }
}

#[via_fn]
proof fn parse_properties_decreases(s: Seq<char>, pos: int, indentation: Seq<char>, tool: ToolView) {
    if 0 <= pos <= s.len() {
        lemma_scan_blank_lines(s, pos);
        let b = scan_blank_lines(s, pos);
        if seq_at(s, b, indentation) {
            let p = b + indentation.len();
            if 0 <= p + 7 <= s.len() {
                lemma_parse_property_value_bounds(s, p + 7, indentation);
            }
            if 0 <= p + 12 <= s.len() {
                lemma_parse_property_value_bounds(s, p + 12, indentation);
            }
        }
    }
}

/// Bounds of `parse_properties` on success.
pub proof fn lemma_parse_properties_bounds(
    s: Seq<char>,
    pos: int,
    indentation: Seq<char>,
    tool: ToolView,
)
    requires
        0 <= pos <= s.len(),
        indentation.len() >= 1,
    ensures
        parse_properties(s, pos, indentation, tool) matches Ok(r) ==> pos <= r.1 <= s.len(),
    decreases s.len() - pos,
{
    lemma_scan_blank_lines(s, pos);
    let b = scan_blank_lines(s, pos);
    if seq_at(s, b, indentation) {
        let p = b + indentation.len();
        if script_property_at(s, p) {
            if tool.script.value_stage is Empty {
                lemma_parse_property_value_bounds(s, p + 7, indentation);
                let r = parse_property_value(s, p + 7, indentation);
                if r.0.len() != 0 {
                    lemma_parse_properties_bounds(s, r.1, indentation, tool_with_script(tool, r.0));
                }
            }
        } else if interpreter_property_at(s, p) {
            if tool.script.value_stage is Empty {
                lemma_parse_property_value_bounds(s, p + 12, indentation);
                let r = parse_property_value(s, p + 12, indentation);
                if r.0.len() != 0 {
                    lemma_parse_properties_bounds(s, r.1, indentation, tool_with_script(tool, r.0));
                }
            }
        }
    }
}

/// Parses a complete tool block at `pos`: the header, then the properties
/// at the indentation captured from the first non-blank line after the
/// header. An empty captured indentation means the block has no properties.
/// `None` means the header does not match at `pos` and the toplevel
/// dispatcher falls back to an opaque line.
pub open spec fn parse_tool_block(s: Seq<char>, pos: int) -> Option<
    Result<(ToolView, int), Seq<char>>,
> {
    match parse_tool_header(s, pos) {
        None => None,
        Some(header) => {
            let after_header = header.1;
            let blanks_end = scan_blank_lines(s, after_header);
            let indentation_end = scan_spaces(s, blanks_end);
            let indentation = s.subrange(blanks_end, indentation_end);
            if indentation.len() == 0 {
                Some(finish_block(s, after_header, empty_tool(header.0)))
            } else {
                Some(parse_properties(s, after_header, indentation, empty_tool(header.0)))
            }
        },
    }
}

/// Bounds of `parse_tool_block` on success: a parsed block makes strict
/// progress and stays inside the text.
pub proof fn lemma_parse_tool_block_bounds(s: Seq<char>, pos: int)
    requires
        0 <= pos <= s.len(),
    ensures
        parse_tool_block(s, pos) matches Some(Ok(r)) ==> pos < r.1 <= s.len(),
{
    match parse_tool_header(s, pos) {
        None => {},
        Some(header) => {
            lemma_parse_tool_header_bounds(s, pos);
            let after_header = header.1;
            lemma_scan_blank_lines(s, after_header);
            let blanks_end = scan_blank_lines(s, after_header);
            lemma_scan_spaces(s, blanks_end);
            let indentation_end = scan_spaces(s, blanks_end);
            let indentation = s.subrange(blanks_end, indentation_end);
            if indentation.len() == 0 {
                lemma_scan_blank_lines(s, after_header);
            } else {
                lemma_parse_properties_bounds(
                    s,
                    after_header,
                    indentation,
                    empty_tool(header.0),
                );
            }
        },
    }
}

// ------------------------------------------------------------------
// The toplevel dispatcher and the assembler.
// ------------------------------------------------------------------

/// The toplevel dispatcher: at each position, first attempts a tool block
/// and falls back to an opaque initialization line when the block header
/// does not match. Accumulates the parsed items in file order until the
/// text is exhausted; a terminal failure aborts the whole parse.
pub open spec fn parse_items(s: Seq<char>, pos: int, acc: Seq<ToplevelDefinitionView>) -> Result<
    Seq<ToplevelDefinitionView>,
    Seq<char>,
>
    decreases s.len() - pos,
    when 0 <= pos <= s.len()
    via parse_items_decreases
{
    if pos >= s.len() {
        Ok(acc)
    } else {
        match parse_tool_block(s, pos) {
            Some(block) => match block {
                Err(m) => Err(m),
                Ok(r) => parse_items(s, r.1, acc.push(ToplevelDefinitionView::Tool(r.0))),
            },
            None => parse_items(
                s,
                line_next(s, pos),
                acc.push(ToplevelDefinitionView::CodeLine(line_content(s, pos))),
            ),
        }
    }
}

#[via_fn]
proof fn parse_items_decreases(s: Seq<char>, pos: int, acc: Seq<ToplevelDefinitionView>) {
    if 0 <= pos <= s.len() {
        lemma_parse_tool_block_bounds(s, pos);
        if pos < s.len() {
            lemma_line_next(s, pos);
        }
    }
}

/// True if some tool in `tools` carries the name `name`.
pub open spec fn tools_contain_name(tools: Seq<ToolView>, name: Seq<char>) -> bool {
    exists|i: int| 0 <= i < tools.len() && (#[trigger] tools[i]).name == name
}

/// The assembler: folds the parsed items into the final typefile, appending
/// each opaque line plus a line feed to the initialization text and
/// inserting each tool under its name. A name that is already taken is a
/// terminal error, wherever in the file the two declarations stand.
pub open spec fn assemble_from(
    items: Seq<ToplevelDefinitionView>,
    k: int,
    acc: TypefileView,
) -> Result<TypefileView, Seq<char>>
    decreases items.len() - k,
    when 0 <= k <= items.len()
{
    if k >= items.len() {
        Ok(acc)
    } else {
        match items[k] {
            ToplevelDefinitionView::CodeLine(line) => assemble_from(
                items,
                k + 1,
                TypefileView { code_lines: acc.code_lines + line + seq!['\n'], tools: acc.tools },
            ),
            ToplevelDefinitionView::Tool(tool) => {
                if tools_contain_name(acc.tools, tool.name) {
                    Err(duplicate_tool_message(tool.name))
                } else {
                    assemble_from(
                        items,
                        k + 1,
                        TypefileView { code_lines: acc.code_lines, tools: acc.tools.push(tool) },
                    )
                }
            },
        }
    }
}

/// The complete parse of a typefile: the toplevel fold over all items,
/// then the assembly into the final result. `Err` carries the message of
/// the terminal failure that aborted the parse.
pub open spec fn parse_typefile_spec(s: Seq<char>) -> Result<TypefileView, Seq<char>> {
    match parse_items(s, 0, Seq::empty()) {
        Err(m) => Err(m),
        Ok(items) => assemble_from(items, 0, empty_typefile_view()),
    }
}

} // verus!
