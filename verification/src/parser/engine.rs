//! The executable recursive-descent parser.
//!
//! Every function here is verified to return exactly the value defined by
//! the corresponding specification function in [`crate::parser::grammar`].
//! The parser walks the input as a vector of characters with an immutable
//! cursor; the tool currently being built is an explicitly passed mutable
//! accumulator.

use vstd::prelude::*;

use crate::parser::grammar::{
    assemble_from, duplicate_property_message, duplicate_tool_message, empty_property_value_message,
    empty_tool, empty_typefile_view, finish_block, indented_line_message, interpreter_property_at,
    lemma_line_next, line_content, line_next, parse_items, parse_properties, parse_property_value,
    parse_tool_block, parse_tool_header, scan_continuation, script_property_at, tool_keyword_at,
    tool_with_script, tools_contain_name, ToplevelDefinitionView, TypefileView,
};
use crate::parser::text::{
    append_range, blank_lines_end, chars_to_string, copy_range, eol_run_end, identifier_end,
    line_content_end, line_endings_end, matches_at, range_ws_only, scan_blank_lines,
    scan_line_endings, scan_spaces, space_char, spaces_end, trimmed,
};
use crate::parser::{ParserError, ParserResult, RuleKind, TraceEntry, Typefile, tools_view};
use crate::workflow::{Tool, ToolProperty, ToolView};

verus! {

/// A parsed toplevel item: either an opaque initialization line or a fully
/// parsed tool block.
pub(crate) enum ToplevelDefinition {
    /// An opaque initialization line, captured without its line ending.
    CodeLine(Vec<char>),
    /// A fully parsed tool block.
    Tool(Tool),
}

impl View for ToplevelDefinition {
    type V = ToplevelDefinitionView;

    closed spec fn view(&self) -> ToplevelDefinitionView {
        match self {
            ToplevelDefinition::CodeLine(line) => ToplevelDefinitionView::CodeLine(line.view()),
            ToplevelDefinition::Tool(tool) => ToplevelDefinitionView::Tool(tool.view()),
        }
    }
}

/// The views of the items in a sequence, in the same order.
pub(crate) open spec fn items_view(items: Seq<ToplevelDefinition>) -> Seq<ToplevelDefinitionView> {
    items.map_values(|d: ToplevelDefinition| d@)
}

// ------------------------------------------------------------------
// Terminal errors.
// ------------------------------------------------------------------

/// The terminal error for an indented line after a completed tool block.
fn terminal_indented_line() -> (e: ParserError)
    ensures
        e matches ParserError::Terminal(m) && m@ == indented_line_message(),
{
    ParserError::Terminal(
        String::from_str(
            "Found an indented line after the end of a tool definition. This means that either after the tool definition, there is an indented line that should not be indented, or the indentation of the tool definition is inconsistent.",
        ),
    )
}

/// The terminal error for a property defined twice on one tool.
fn terminal_duplicate_property() -> (e: ParserError)
    ensures
        e matches ParserError::Terminal(m) && m@ == duplicate_property_message(),
{
    ParserError::Terminal(
        String::from_str("Found a property that is defined more than once on the same tool."),
    )
}

/// The terminal error for a defined property with an empty value.
fn terminal_empty_property_value() -> (e: ParserError)
    ensures
        e matches ParserError::Terminal(m) && m@ == empty_property_value_message(),
{
    ParserError::Terminal(
        String::from_str(
            "Found an empty property value. A property that is defined must carry a non-empty value.",
        ),
    )
}

/// The terminal error for a tool name that is declared twice in one file.
fn terminal_duplicate_tool(name: &String) -> (e: ParserError)
    ensures
        e matches ParserError::Terminal(m) && m@ == duplicate_tool_message(name@),
{
    let message = String::from_str("Tool already exists: ").concat(name.as_str());
    ParserError::Terminal(message)
}

// ------------------------------------------------------------------
// The tool block header.
// ------------------------------------------------------------------

/// A recoverable failure of the grammar rule `kind` at `position`.
fn recoverable(position: usize, kind: RuleKind) -> (e: ParserError)
    ensures
        e is Recoverable,
{
    ParserError::Recoverable(vec![TraceEntry { position, kind }])
}

/// Parses the header of a tool block at `pos`, returning the tool name and
/// the position past the header.
fn tool_header(v: &Vec<char>, pos: usize) -> (r: ParserResult<Vec<char>>)
    requires
        pos <= v@.len(),
    ensures
        match r {
            Ok(p) => parse_tool_header(v@, pos as int) == Some((p.0@, p.1 as int)) && pos < p.1
                <= v@.len(),
            Err(e) => parse_tool_header(v@, pos as int) is None && e is Recoverable,
        },
{
    if !(v.len() - pos >= 4 && v[pos] == 't' && v[pos + 1] == 'o' && v[pos + 2] == 'o' && v[pos
        + 3] == 'l') {
        proof {
            assert(!tool_keyword_at(v@, pos as int));
        }
        return Err(recoverable(pos, RuleKind::Tag));
    }
    let space_end = spaces_end(v, pos + 4);
    if space_end == pos + 4 {
        return Err(recoverable(space_end, RuleKind::Space));
    }
    let name_end = identifier_end(v, space_end);
    if name_end == space_end {
        return Err(recoverable(name_end, RuleKind::Identifier));
    }
    if !(name_end < v.len() && v[name_end] == ':') {
        return Err(recoverable(name_end, RuleKind::Tag));
    }
    let trail_end = spaces_end(v, name_end + 1);
    let endings_end = line_endings_end(v, trail_end);
    if endings_end == trail_end {
        return Err(recoverable(trail_end, RuleKind::LineEnding));
    }
    let name = copy_range(v, space_end, name_end);
    Ok((name, endings_end))
}

// ------------------------------------------------------------------
// Properties.
// ------------------------------------------------------------------

/// Tests whether the script property is already set on `tool`.
fn script_is_set(tool: &Tool) -> (r: bool)
    ensures
        r == !(tool@.script.value_stage is Empty),
{
    match &tool.script.value_stage {
        crate::workflow::ToolPropertyStage::Empty => false,
        crate::workflow::ToolPropertyStage::Raw => true,
        crate::workflow::ToolPropertyStage::Partial(_) => true,
        crate::workflow::ToolPropertyStage::Resolved(_) => true,
    }
}

/// Tests for the property name `script` followed by a colon at `pos`.
fn script_property(v: &Vec<char>, pos: usize) -> (r: bool)
    requires
        pos <= v@.len(),
    ensures
        r == script_property_at(v@, pos as int),
{
    v.len() - pos >= 7 && v[pos] == 's' && v[pos + 1] == 'c' && v[pos + 2] == 'r' && v[pos + 3]
        == 'i' && v[pos + 4] == 'p' && v[pos + 5] == 't' && v[pos + 6] == ':'
}

/// Tests for the property name `interpreter` followed by a colon at `pos`.
fn interpreter_property(v: &Vec<char>, pos: usize) -> (r: bool)
    requires
        pos <= v@.len(),
    ensures
        r == interpreter_property_at(v@, pos as int),
{
    v.len() - pos >= 12 && v[pos] == 'i' && v[pos + 1] == 'n' && v[pos + 2] == 't' && v[pos + 3]
        == 'e' && v[pos + 4] == 'r' && v[pos + 5] == 'p' && v[pos + 6] == 'r' && v[pos + 7] == 'e'
        && v[pos + 8] == 't' && v[pos + 9] == 'e' && v[pos + 10] == 'r' && v[pos + 11] == ':'
}

/// Consumes one blank line (spaces followed by at least one line ending) at
/// `pos`, if there is one.
fn blank_step(v: &Vec<char>, pos: usize) -> (r: Option<usize>)
    requires
        pos <= v@.len(),
    ensures
        ({
            let se = scan_spaces(v@, pos as int);
            let ee = scan_line_endings(v@, se);
            match r {
                Some(n) => ee > se && n as int == ee && pos < n <= v@.len(),
                None => ee == se,
            }
        }),
{
    let se = spaces_end(v, pos);
    let ee = line_endings_end(v, se);
    if ee > se {
        Some(ee)
    } else {
        None
    }
}

/// Parses the value of one property definition, starting just past the
/// colon of its header line. Returns the trimmed value and the position
/// past the definition, exactly as `parse_property_value` defines them.
fn property_value(v: &Vec<char>, pos: usize, indentation: &Vec<char>) -> (r: (Vec<char>, usize))
    requires
        pos <= v@.len(),
    ensures
        r.0@ == parse_property_value(v@, pos as int, indentation@).0,
        r.1 as int == parse_property_value(v@, pos as int, indentation@).1,
        pos <= r.1 <= v@.len(),
{
    let first_start = spaces_end(v, pos);
    let first_end = line_content_end(v, first_start);
    let after_line = eol_run_end(v, first_end);
    let deep_end = spaces_end(v, after_line);
    let ghost first = v@.subrange(first_start as int, first_end as int);
    if deep_end - after_line > indentation.len() && matches_at(v, after_line, indentation) {
        let deep = copy_range(v, after_line, deep_end);
        let mut acc = copy_range(v, first_start, first_end);
        let mut q = after_line;
        loop
            invariant
                after_line <= q <= v@.len(),
                deep@ == v@.subrange(after_line as int, scan_spaces(v@, after_line as int)),
                deep@.len() >= 1,
                scan_continuation(v@, after_line as int, deep@, first) == scan_continuation(
                    v@,
                    q as int,
                    deep@,
                    acc@,
                ),
            ensures
                scan_continuation(v@, after_line as int, deep@, first) == (acc@, q as int),
            decreases v@.len() - q,
        {
            if matches_at(v, q, &deep) {
                proof {
                    assert(q + deep@.len() <= v.len());
                }
                let content_start = q + deep.len();
                let content_end = line_content_end(v, content_start);
                if content_end > content_start {
                    let next = eol_run_end(v, content_end);
                    let ghost old_acc = acc@;
                    let ghost content = v@.subrange(content_start as int, content_end as int);
                    if !range_ws_only(v, content_start, content_end) {
                        acc.push('\n');
                        append_range(&mut acc, v, content_start, content_end);
                        proof {
                            assert(acc@ =~= old_acc + seq!['\n'] + content);
                        }
                    }
                    proof {
                        assert(scan_continuation(v@, q as int, deep@, old_acc)
                            == scan_continuation(v@, next as int, deep@, acc@));
                    }
                    q = next;
                } else {
                    match blank_step(v, q) {
                        Some(n) => {
                            q = n;
                        },
                        None => {
                            proof {
                                assert(scan_continuation(v@, q as int, deep@, acc@) == (
                                    acc@,
                                    q as int,
                                ));
                            }
                            break ;
                        },
                    }
                }
            } else {
                match blank_step(v, q) {
                    Some(n) => {
                        q = n;
                    },
                    None => {
                        proof {
                            assert(scan_continuation(v@, q as int, deep@, acc@) == (
                                acc@,
                                q as int,
                            ));
                        }
                        break ;
                    },
                }
            }
        }
        let value = trimmed(&acc);
        (value, q)
    } else {
        let first_vec = copy_range(v, first_start, first_end);
        (trimmed(&first_vec), after_line)
    }
}

// ------------------------------------------------------------------
// Tool blocks.
// ------------------------------------------------------------------

/// Parses a complete tool block at `pos`.
///
/// `Ok` carries the parsed tool and the position past the block.
/// `Err(Recoverable(..))` means the header did not match and the caller
/// falls back to an opaque line; `Err(Terminal(..))` aborts the parse.
fn tool_block(v: &Vec<char>, pos: usize) -> (r: ParserResult<Tool>)
    requires
        pos <= v@.len(),
    ensures
        match r {
            Ok(p) => parse_tool_block(v@, pos as int) == Some(
                Ok::<(ToolView, int), Seq<char>>((p.0@, p.1 as int)),
            ) && pos < p.1 <= v@.len(),
            Err(e) => match e {
                ParserError::Recoverable(_) => parse_tool_block(v@, pos as int) is None,
                ParserError::Terminal(m) => parse_tool_block(v@, pos as int) == Some(
                    Err::<(ToolView, int), Seq<char>>(m@),
                ),
            },
        },
{
    let (name_chars, after_header) = match tool_header(v, pos) {
        Ok(p) => p,
        Err(e) => {
            return Err(e);
        },
    };
    let ghost name = name_chars@;
    let blanks_end = blank_lines_end(v, after_header);
    let indentation_end = spaces_end(v, blanks_end);
    let mut tool = Tool::new(chars_to_string(&name_chars));
    proof {
        assert(tool@ =~= empty_tool(name));
    }
    let mut q = after_header;
    if indentation_end > blanks_end {
        let indentation = copy_range(v, blanks_end, indentation_end);
        let mut failure: Option<ParserError> = None;
        loop
            invariant_except_break
                failure is None,
            invariant
                after_header <= q <= v@.len(),
                indentation@ == v@.subrange(
                    scan_blank_lines(v@, after_header as int),
                    scan_spaces(v@, scan_blank_lines(v@, after_header as int)),
                ),
                indentation@.len() >= 1,
                parse_properties(v@, after_header as int, indentation@, empty_tool(name))
                    == parse_properties(v@, q as int, indentation@, tool@),
            ensures
                match failure {
                    None => parse_properties(v@, after_header as int, indentation@, empty_tool(name))
                        == finish_block(v@, q as int, tool@),
                    Some(e) => e matches ParserError::Terminal(m) && parse_properties(
                        v@,
                        after_header as int,
                        indentation@,
                        empty_tool(name),
                    ) == Err::<(ToolView, int), Seq<char>>(m@),
                },
            decreases v@.len() - q,
        {
            let b = blank_lines_end(v, q);
            if !matches_at(v, b, &indentation) {
                proof {
                    assert(parse_properties(v@, q as int, indentation@, tool@) == finish_block(
                        v@,
                        q as int,
                        tool@,
                    ));
                }
                break ;
            }
            proof {
                assert(b + indentation@.len() <= v.len());
            }
            let p = b + indentation.len();
            let property_start: usize;
            if script_property(v, p) {
                property_start = p + 7;
            } else if interpreter_property(v, p) {
                property_start = p + 12;
            } else {
                proof {
                    assert(parse_properties(v@, q as int, indentation@, tool@) == finish_block(
                        v@,
                        q as int,
                        tool@,
                    ));
                }
                break ;
            }
            if script_is_set(&tool) {
                proof {
                    assert(parse_properties(v@, q as int, indentation@, tool@) == Err::<
                        (ToolView, int),
                        Seq<char>,
                    >(duplicate_property_message()));
                }
                failure = Some(terminal_duplicate_property());
                break ;
            }
            let (value, end) = property_value(v, property_start, &indentation);
            if value.len() == 0 {
                proof {
                    assert(parse_properties(v@, q as int, indentation@, tool@) == Err::<
                        (ToolView, int),
                        Seq<char>,
                    >(empty_property_value_message()));
                }
                failure = Some(terminal_empty_property_value());
                break ;
            }
            let ghost old_tool = tool@;
            tool.script = ToolProperty::raw(chars_to_string(&value));
            proof {
                assert(tool@ =~= tool_with_script(
                    old_tool,
                    parse_property_value(v@, property_start as int, indentation@).0,
                ));
            }
            q = end;
        }
        proof {
            assert(parse_tool_block(v@, pos as int) == Some(
                parse_properties(v@, after_header as int, indentation@, empty_tool(name)),
            ));
        }
        if let Some(e) = failure {
            return Err(e);
        }
    } else {
        proof {
            assert(parse_tool_block(v@, pos as int) == Some(
                finish_block(v@, after_header as int, empty_tool(name)),
            ));
        }
    }
    let final_blanks = blank_lines_end(v, q);
    if final_blanks < v.len() && space_char(v[final_blanks]) {
        return Err(terminal_indented_line());
    }
    Ok((tool, final_blanks))
}

// ------------------------------------------------------------------
// The toplevel dispatcher and the assembler.
// ------------------------------------------------------------------

/// The toplevel dispatcher: folds the whole input into the ordered list of
/// parsed items, trying a tool block first at each position and falling
/// back to an opaque line.
pub(crate) fn toplevel_items(v: &Vec<char>) -> (r: Result<Vec<ToplevelDefinition>, ParserError>)
    ensures
        match r {
            Ok(items) => parse_items(v@, 0, Seq::empty()) == Ok::<
                Seq<ToplevelDefinitionView>,
                Seq<char>,
            >(items_view(items@)),
            Err(e) => e matches ParserError::Terminal(m) && parse_items(v@, 0, Seq::empty())
                == Err::<Seq<ToplevelDefinitionView>, Seq<char>>(m@),
        },
{
    let mut items: Vec<ToplevelDefinition> = Vec::new();
    let mut pos: usize = 0;
    proof {
        assert(items_view(items@) =~= Seq::<ToplevelDefinitionView>::empty());
    }
    loop
        invariant
            0 <= pos <= v@.len(),
            parse_items(v@, 0, Seq::empty()) == parse_items(v@, pos as int, items_view(items@)),
        ensures
            pos == v@.len(),
            parse_items(v@, 0, Seq::empty()) == parse_items(v@, pos as int, items_view(items@)),
        decreases v@.len() - pos,
    {
        if pos >= v.len() {
            break ;
        }
        let ghost old_items = items@;
        match tool_block(v, pos) {
            Ok((tool, next)) => {
                let ghost tool_view = tool@;
                items.push(ToplevelDefinition::Tool(tool));
                proof {
                    assert(items_view(items@) =~= items_view(old_items).push(
                        ToplevelDefinitionView::Tool(tool_view),
                    ));
                }
                pos = next;
            },
            Err(e) => match e {
                ParserError::Terminal(m) => {
                    return Err(ParserError::Terminal(m));
                },
                ParserError::Recoverable(_) => {
                    let content_end = line_content_end(v, pos);
                    let next = eol_run_end(v, content_end);
                    let content = copy_range(v, pos, content_end);
                    proof {
                        lemma_line_next(v@, pos as int);
                        assert(next as int == line_next(v@, pos as int));
                        assert(content@ == line_content(v@, pos as int));
                    }
                    items.push(ToplevelDefinition::CodeLine(content));
                    proof {
                        assert(items_view(items@) =~= items_view(old_items).push(
                            ToplevelDefinitionView::CodeLine(line_content(v@, pos as int)),
                        ));
                    }
                    pos = next;
                },
            },
        }
    }
    Ok(items)
}

/// Tests whether some tool in `tools` already carries `name`.
fn tools_contain(tools: &Vec<Tool>, name: &String) -> (r: bool)
    ensures
        r == tools_contain_name(tools_view(tools@), name@),
{
    let mut i: usize = 0;
    while i < tools.len()
        invariant
            0 <= i <= tools@.len(),
            forall|j: int| 0 <= j < i ==> (#[trigger] tools_view(tools@)[j]).name != name@,
        decreases tools@.len() - i,
    {
        if tools[i].name == *name {
            proof {
                assert(tools_view(tools@)[i as int].name == name@);
            }
            return true;
        }
        i = i + 1;
    }
    false
}

/// The assembler: folds the ordered item list into the final typefile,
/// appending each opaque line plus a line feed to the initialization text
/// and inserting each tool under its name. A tool name that is already
/// taken is a terminal error, wherever in the file the two declarations
/// stand.
pub(crate) fn assemble(items: Vec<ToplevelDefinition>) -> (r: Result<Typefile, ParserError>)
    ensures
        ({
            let spec_result = assemble_from(items_view(items@), 0, empty_typefile_view());
            match r {
                Ok(t) => spec_result == Ok::<TypefileView, Seq<char>>(t@),
                Err(e) => e matches ParserError::Terminal(m) && spec_result == Err::<
                    TypefileView,
                    Seq<char>,
                >(m@),
            }
        }),
{
    let ghost full = items_view(items@);
    let mut rest = items;
    let mut code_lines: Vec<char> = Vec::new();
    let mut tools: Vec<Tool> = Vec::new();
    let mut failure: Option<ParserError> = None;
    proof {
        assert(full.subrange(0, full.len() as int) =~= items_view(rest@));
        assert(TypefileView { code_lines: code_lines@, tools: tools_view(tools@) }
            =~= empty_typefile_view());
    }
    loop
        invariant_except_break
            failure is None,
            assemble_from(full, 0, empty_typefile_view()) == assemble_from(
                full,
                full.len() - rest@.len(),
                TypefileView { code_lines: code_lines@, tools: tools_view(tools@) },
            ),
        invariant
            rest@.len() <= full.len(),
            items_view(rest@) == full.subrange(
                full.len() - rest@.len(),
                full.len() as int,
            ),
        ensures
            match failure {
                None => assemble_from(full, 0, empty_typefile_view()) == Ok::<
                    TypefileView,
                    Seq<char>,
                >(TypefileView { code_lines: code_lines@, tools: tools_view(tools@) }),
                Some(e) => e matches ParserError::Terminal(m) && assemble_from(
                    full,
                    0,
                    empty_typefile_view(),
                ) == Err::<TypefileView, Seq<char>>(m@),
            },
        decreases rest@.len(),
    {
        if rest.len() == 0 {
            break ;
        }
        let ghost k = full.len() - rest@.len();
        let ghost old_rest = rest@;
        let d = rest.remove(0);
        proof {
            assert(d@ == items_view(old_rest)[0]);
            assert(items_view(old_rest)[0] == full[k]);
            assert(rest@ =~= old_rest.subrange(1, old_rest.len() as int));
            assert forall|j: int| 0 <= j < rest@.len() implies #[trigger] items_view(rest@)[j]
                == full.subrange(k + 1, full.len() as int)[j] by {
                assert(rest@[j] == old_rest[j + 1]);
                assert(items_view(old_rest)[j + 1] == full.subrange(k, full.len() as int)[j + 1]);
            }
            assert(items_view(rest@) =~= full.subrange(k + 1, full.len() as int));
        }
        match d {
            ToplevelDefinition::CodeLine(line) => {
                let ghost old_code = code_lines@;
                let mut line_vec = line;
                code_lines.append(&mut line_vec);
                code_lines.push('\n');
                proof {
                    assert(code_lines@ =~= old_code + full[k]->CodeLine_0 + seq!['\n']);
                }
            },
            ToplevelDefinition::Tool(tool) => {
                if tools_contain(&tools, &tool.name) {
                    proof {
                        assert(full[k]->Tool_0.name == tool.name@);
                        assert(assemble_from(
                            full,
                            k,
                            TypefileView { code_lines: code_lines@, tools: tools_view(tools@) },
                        ) == Err::<TypefileView, Seq<char>>(duplicate_tool_message(tool.name@)));
                    }
                    failure = Some(terminal_duplicate_tool(&tool.name));
                    break ;
                }
                let ghost old_tools = tools@;
                tools.push(tool);
                proof {
                    assert(tools_view(tools@) =~= tools_view(old_tools).push(
                        full[k]->Tool_0,
                    ));
                }
            },
        }
    }
    if let Some(e) = failure {
        return Err(e);
    }
    let typefile = Typefile { code_lines: chars_to_string(&code_lines), tools };
    proof {
        assert(typefile@ =~= TypefileView {
            code_lines: code_lines@,
            tools: tools_view(typefile.tools@),
        });
    }
    Ok(typefile)
}

} // verus!
