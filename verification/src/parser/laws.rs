//! Laws of the typefile grammar, stated and proved once and for all inputs.
//!
//! The executable parser is verified to return exactly what
//! [`crate::parser::grammar`] defines, so every law proved here about the
//! grammar holds of the parser as well.

use vstd::prelude::*;

use crate::parser::grammar::{
    assemble_from, deeper_indentation_at, empty_typefile_view, line_content,
    line_next, lemma_line_next, lemma_parse_property_value_bounds, lemma_parse_tool_header_bounds,
    interpreter_property_at, parse_items, parse_properties, parse_property_value, parse_tool_block,
    parse_tool_header, parse_typefile_spec, scan_continuation, script_property_at, split_lines,
    tool_keyword_at, tool_with_script, tools_contain_name, empty_tool, ToplevelDefinitionView,
    TypefileView,
};
use crate::parser::text::{
    is_line_end_char, is_space_char, lemma_scan_blank_lines, lemma_scan_eol_run,
    lemma_scan_line_content, lemma_scan_line_endings, lemma_scan_spaces, scan_blank_lines,
    scan_eol_run, scan_line_content, scan_line_endings, scan_spaces, seq_at, trim_ws, ws_only,
};
use crate::workflow::ToolView;

verus! {

// ------------------------------------------------------------------
// Determinism and totality.
// ------------------------------------------------------------------

/// Parsing is deterministic and total over the declared grammar.
///
/// The grammar is a mathematical function from the input text to one result
/// or one terminal error, defined for every text; and the parser's
/// postcondition pins its return value to that function. Hence two parses
/// of equal texts return equal values, and every text yields either one
/// result or one error.
pub proof fn lemma_parse_deterministic(s1: Seq<char>, s2: Seq<char>)
    requires
        s1 == s2,
    ensures
        parse_typefile_spec(s1) == parse_typefile_spec(s2),
{
}

// ------------------------------------------------------------------
// Duplicate tool names.
// ------------------------------------------------------------------

/// If some later item is a tool whose name is already taken in the
/// accumulator, assembly fails.
proof fn lemma_assemble_known_name(
    items: Seq<ToplevelDefinitionView>,
    k: int,
    acc: TypefileView,
    j: int,
)
    requires
        0 <= k <= j < items.len(),
        items[j] is Tool,
        tools_contain_name(acc.tools, items[j]->Tool_0.name),
    ensures
        assemble_from(items, k, acc) is Err,
    decreases items.len() - k,
{
    match items[k] {
        ToplevelDefinitionView::CodeLine(line) => {
            let acc2 = TypefileView {
                code_lines: acc.code_lines + line + seq!['\n'],
                tools: acc.tools,
            };
            lemma_assemble_known_name(items, k + 1, acc2, j);
        },
        ToplevelDefinitionView::Tool(tool) => {
            if !tools_contain_name(acc.tools, tool.name) {
                let acc2 = TypefileView {
                    code_lines: acc.code_lines,
                    tools: acc.tools.push(tool),
                };
                assert(k < j);
                let name = items[j]->Tool_0.name;
                let i = choose|i: int|
                    0 <= i < acc.tools.len() && (#[trigger] acc.tools[i]).name == name;
                assert(acc2.tools[i].name == name);
                lemma_assemble_known_name(items, k + 1, acc2, j);
            }
        },
    }
}

/// Declaring two tools with identical names anywhere among the parsed
/// items makes assembly fail, regardless of the distance between the two
/// declarations.
proof fn lemma_assemble_duplicate(
    items: Seq<ToplevelDefinitionView>,
    k: int,
    acc: TypefileView,
    i: int,
    j: int,
)
    requires
        0 <= k <= i < j < items.len(),
        items[i] is Tool,
        items[j] is Tool,
        items[i]->Tool_0.name == items[j]->Tool_0.name,
    ensures
        assemble_from(items, k, acc) is Err,
    decreases items.len() - k,
{
    match items[k] {
        ToplevelDefinitionView::CodeLine(line) => {
            let acc2 = TypefileView {
                code_lines: acc.code_lines + line + seq!['\n'],
                tools: acc.tools,
            };
            lemma_assemble_duplicate(items, k + 1, acc2, i, j);
        },
        ToplevelDefinitionView::Tool(tool) => {
            if !tools_contain_name(acc.tools, tool.name) {
                let acc2 = TypefileView {
                    code_lines: acc.code_lines,
                    tools: acc.tools.push(tool),
                };
                if k == i {
                    assert(acc2.tools[acc.tools.len() as int].name == items[j]->Tool_0.name);
                    lemma_assemble_known_name(items, k + 1, acc2, j);
                } else {
                    lemma_assemble_duplicate(items, k + 1, acc2, i, j);
                }
            }
        },
    }
}

/// Declaring two tools with identical names anywhere in the file is always
/// a terminal error, regardless of the distance between the declarations:
/// whenever the toplevel fold yields two tool items carrying the same
/// name, the whole parse reports an error.
pub proof fn lemma_duplicate_tool_name_terminal(
    s: Seq<char>,
    items: Seq<ToplevelDefinitionView>,
    i: int,
    j: int,
)
    requires
        parse_items(s, 0, Seq::empty()) == Ok::<Seq<ToplevelDefinitionView>, Seq<char>>(items),
        0 <= i < j < items.len(),
        items[i] is Tool,
        items[j] is Tool,
        items[i]->Tool_0.name == items[j]->Tool_0.name,
    ensures
        parse_typefile_spec(s) is Err,
{
    lemma_assemble_duplicate(items, 0, empty_typefile_view(), i, j);
}

// ------------------------------------------------------------------
// Unique names in a successful parse.
// ------------------------------------------------------------------

/// True if the tools carry pairwise distinct names.
pub open spec fn tool_names_unique(tools: Seq<ToolView>) -> bool {
    forall|i: int, j: int|
        0 <= i < j < tools.len() ==> (#[trigger] tools[i]).name != (#[trigger] tools[j]).name
}

/// Assembly preserves uniqueness of tool names: it inserts a tool only
/// after checking that its name is not taken yet.
proof fn lemma_assemble_unique(items: Seq<ToplevelDefinitionView>, k: int, acc: TypefileView)
    requires
        0 <= k <= items.len(),
        tool_names_unique(acc.tools),
    ensures
        assemble_from(items, k, acc) matches Ok(tf) ==> tool_names_unique(tf.tools),
    decreases items.len() - k,
{
    if k < items.len() {
        match items[k] {
            ToplevelDefinitionView::CodeLine(line) => {
                let acc2 = TypefileView {
                    code_lines: acc.code_lines + line + seq!['\n'],
                    tools: acc.tools,
                };
                lemma_assemble_unique(items, k + 1, acc2);
            },
            ToplevelDefinitionView::Tool(tool) => {
                if !tools_contain_name(acc.tools, tool.name) {
                    let acc2 = TypefileView {
                        code_lines: acc.code_lines,
                        tools: acc.tools.push(tool),
                    };
                    assert forall|a: int, b: int| 0 <= a < b < acc2.tools.len() implies (
                    #[trigger] acc2.tools[a]).name != (#[trigger] acc2.tools[b]).name by {
                        if b == acc.tools.len() as int {
                            assert(acc.tools[a].name != tool.name);
                        }
                    }
                    lemma_assemble_unique(items, k + 1, acc2);
                }
            },
        }
    }
}

/// Every key of a successfully parsed typefile is unique: a successful
/// parse never carries two tools with the same name.
pub proof fn lemma_parsed_tool_names_unique(s: Seq<char>)
    ensures
        parse_typefile_spec(s) matches Ok(tf) ==> tool_names_unique(tf.tools),
{
    match parse_items(s, 0, Seq::empty()) {
        Err(_) => {},
        Ok(items) => {
            lemma_assemble_unique(items, 0, empty_typefile_view());
        },
    }
}

// ------------------------------------------------------------------
// Indented lines after a completed tool block.
// ------------------------------------------------------------------

/// A property fold that succeeds stops only at a position that does not
/// begin with a space or tab.
proof fn lemma_parse_properties_ends_unindented(
    s: Seq<char>,
    pos: int,
    indentation: Seq<char>,
    tool: ToolView,
)
    requires
        0 <= pos <= s.len(),
        indentation.len() >= 1,
    ensures
        parse_properties(s, pos, indentation, tool) matches Ok(r) ==> (r.1 == s.len()
            || !is_space_char(s[r.1])),
    decreases s.len() - pos,
{
    lemma_scan_blank_lines(s, pos);
    let b = scan_blank_lines(s, pos);
    if seq_at(s, b, indentation) {
        let p = b + indentation.len();
        if script_property_at(s, p) {
            if tool.script.value_stage is Empty {
                lemma_parse_property_value_bounds(s, p + 7, indentation);
                let r = parse_property_value(s, p + 7, indentation);
                if r.0.len() != 0 {
                    lemma_parse_properties_ends_unindented(
                        s,
                        r.1,
                        indentation,
                        tool_with_script(tool, r.0),
                    );
                }
            }
        } else if interpreter_property_at(s, p) {
            if tool.script.value_stage is Empty {
                lemma_parse_property_value_bounds(s, p + 12, indentation);
                let r = parse_property_value(s, p + 12, indentation);
                if r.0.len() != 0 {
                    lemma_parse_properties_ends_unindented(
                        s,
                        r.1,
                        indentation,
                        tool_with_script(tool, r.0),
                    );
                }
            }
        }
    }
}

/// An indented, non-blank line immediately following a completed tool
/// block is always a terminal error. Equivalently: a tool block parse that
/// succeeds stops only at the end of the text or before a line that does
/// not begin with a space or tab, so any remaining indented line makes the
/// block parse itself report a terminal error instead.
pub proof fn lemma_block_end_never_indented(s: Seq<char>, pos: int)
    requires
        0 <= pos <= s.len(),
    ensures
        parse_tool_block(s, pos) matches Some(Ok(r)) ==> (r.1 == s.len() || !is_space_char(
            s[r.1],
        )),
{
    match parse_tool_header(s, pos) {
        None => {},
        Some(header) => {
            lemma_parse_tool_header_bounds(s, pos);
            let after_header = header.1;
            lemma_scan_blank_lines(s, after_header);
            let blanks_end = scan_blank_lines(s, after_header);
            crate::parser::text::lemma_scan_spaces(s, blanks_end);
            let indentation_end = scan_spaces(s, blanks_end);
            let indentation = s.subrange(blanks_end, indentation_end);
            if indentation.len() == 0 {
            } else {
                lemma_parse_properties_ends_unindented(
                    s,
                    after_header,
                    indentation,
                    empty_tool(header.0),
                );
            }
        },
    }
}

// ------------------------------------------------------------------
// Inputs without tool lines.
// ------------------------------------------------------------------

/// True if the line could open a tool block: it begins with the keyword
/// `tool` followed by at least one space or tab.
pub open spec fn line_opens_tool_block(line: Seq<char>) -> bool {
    &&& line.len() >= 5
    &&& line[0] == 't'
    &&& line[1] == 'o'
    &&& line[2] == 'o'
    &&& line[3] == 'l'
    &&& is_space_char(line[4])
}

/// The scanned lines from index `k` on, each terminated by a single line feed.
pub open spec fn join_lines_from(lines: Seq<Seq<char>>, k: int) -> Seq<char>
    decreases lines.len() - k,
    when 0 <= k <= lines.len()
{
    if k >= lines.len() {
        Seq::empty()
    } else {
        lines[k] + seq!['\n'] + join_lines_from(lines, k + 1)
    }
}

/// Each line taken as an opaque initialization item.
pub open spec fn code_items(lines: Seq<Seq<char>>) -> Seq<ToplevelDefinitionView> {
    lines.map_values(|line: Seq<char>| ToplevelDefinitionView::CodeLine(line))
}

/// On an input none of whose lines can open a tool block, the toplevel
/// fold takes every line as an opaque initialization line.
proof fn lemma_items_without_tool_lines(s: Seq<char>, pos: int, acc: Seq<ToplevelDefinitionView>)
    requires
        0 <= pos <= s.len(),
        forall|i: int|
            0 <= i < split_lines(s, pos).len() ==> !line_opens_tool_block(
                #[trigger] split_lines(s, pos)[i],
            ),
    ensures
        parse_items(s, pos, acc) == Ok::<Seq<ToplevelDefinitionView>, Seq<char>>(
            acc + code_items(split_lines(s, pos)),
        ),
    decreases s.len() - pos,
{
    if pos >= s.len() {
        assert(acc + code_items(split_lines(s, pos)) =~= acc);
    } else {
        lemma_line_next(s, pos);
        lemma_scan_line_content(s, pos);
        let content_end = scan_line_content(s, pos);
        let line = line_content(s, pos);
        let next = line_next(s, pos);
        assert(split_lines(s, pos)[0] == line);
        // The header cannot match at `pos`: it would need the keyword `tool`
        // and at least one space after it, and none of those five characters
        // is a line end, so they would all belong to the line's content and
        // the line would open a tool block.
        if tool_keyword_at(s, pos) {
            lemma_scan_spaces(s, pos + 4);
            if scan_spaces(s, pos + 4) > pos + 4 {
                assert(is_space_char(s[pos + 4]));
                if content_end < pos + 5 {
                    assert(is_line_end_char(s[content_end]));
                    assert(false);
                }
                assert(line.len() >= 5);
                assert(line[0] == 't' && line[1] == 'o' && line[2] == 'o' && line[3] == 'l'
                    && is_space_char(line[4]));
                assert(false);
            }
        }
        assert(parse_tool_header(s, pos) is None);
        assert(parse_tool_block(s, pos) is None);
        assert(split_lines(s, next) =~= split_lines(s, pos).drop_first());
        assert forall|i: int| 0 <= i < split_lines(s, next).len() implies !line_opens_tool_block(
            #[trigger] split_lines(s, next)[i],
        ) by {
            assert(split_lines(s, next)[i] == split_lines(s, pos)[i + 1]);
        }
        let acc2 = acc.push(ToplevelDefinitionView::CodeLine(line));
        lemma_items_without_tool_lines(s, next, acc2);
        assert(code_items(split_lines(s, pos)) =~= seq![ToplevelDefinitionView::CodeLine(line)]
            + code_items(split_lines(s, next)));
        assert(acc2 + code_items(split_lines(s, next)) =~= acc + code_items(split_lines(s, pos)));
    }
}

/// Assembling items that are all opaque lines yields no tools and joins the
/// lines, each terminated by a single line feed.
proof fn lemma_assemble_code_items(lines: Seq<Seq<char>>, k: int, acc: TypefileView)
    requires
        0 <= k <= lines.len(),
    ensures
        assemble_from(code_items(lines), k, acc) == Ok::<TypefileView, Seq<char>>(
            TypefileView {
                code_lines: acc.code_lines + join_lines_from(lines, k),
                tools: acc.tools,
            },
        ),
    decreases lines.len() - k,
{
    if k >= lines.len() {
        assert(acc.code_lines + join_lines_from(lines, k) =~= acc.code_lines);
        assert(TypefileView { code_lines: acc.code_lines + join_lines_from(lines, k), tools: acc.tools }
            =~= acc);
    } else {
        assert(code_items(lines)[k] == ToplevelDefinitionView::CodeLine(lines[k]));
        let acc2 = TypefileView {
            code_lines: acc.code_lines + lines[k] + seq!['\n'],
            tools: acc.tools,
        };
        lemma_assemble_code_items(lines, k + 1, acc2);
        assert(acc2.code_lines + join_lines_from(lines, k + 1) =~= acc.code_lines
            + join_lines_from(lines, k));
    }
}

/// An input consisting solely of lines that cannot open a tool block —
/// none begins with the keyword `tool` followed by a space or tab — always
/// parses successfully; the tool mapping of the result is empty and the
/// initialization buffer is the input's lines in order, each terminated by
/// a single line feed, regardless of the original line-ending style.
pub proof fn lemma_tool_free_input_is_all_code(s: Seq<char>)
    requires
        forall|i: int|
            0 <= i < split_lines(s, 0).len() ==> !line_opens_tool_block(
                #[trigger] split_lines(s, 0)[i],
            ),
    ensures
        parse_typefile_spec(s) == Ok::<TypefileView, Seq<char>>(
            TypefileView {
                code_lines: join_lines_from(split_lines(s, 0), 0),
                tools: Seq::empty(),
            },
        ),
{
    lemma_items_without_tool_lines(s, 0, Seq::empty());
    assert(Seq::<ToplevelDefinitionView>::empty() + code_items(split_lines(s, 0)) =~= code_items(
        split_lines(s, 0),
    ));
    lemma_assemble_code_items(split_lines(s, 0), 0, empty_typefile_view());
    assert(Seq::<char>::empty() + join_lines_from(split_lines(s, 0), 0) =~= join_lines_from(
        split_lines(s, 0),
        0,
    ));
}

// ------------------------------------------------------------------
// Continuation lines of a property value.
// ------------------------------------------------------------------

/// The contents of the continuation lines that are included in a property
/// value: starting at `pos`, a line that literally extends the deeper
/// indentation `deep` and whose remainder is not whitespace-only
/// contributes that remainder; whitespace-only lines are skipped; the
/// first line that is neither ends the collection.
pub open spec fn continuation_segments(s: Seq<char>, pos: int, deep: Seq<char>) -> Seq<Seq<char>>
    decreases s.len() - pos,
    when 0 <= pos <= s.len() && deep.len() >= 1
    via continuation_segments_decreases
{
    let content_start = pos + deep.len();
    if seq_at(s, pos, deep) && scan_line_content(s, content_start) > content_start {
        let content_end = scan_line_content(s, content_start);
        let content = s.subrange(content_start, content_end);
        let next = scan_eol_run(s, content_end);
        if ws_only(content) {
            continuation_segments(s, next, deep)
        } else {
            seq![content] + continuation_segments(s, next, deep)
        }
    } else {
        let spaces = scan_spaces(s, pos);
        let endings = scan_line_endings(s, spaces);
        if endings > spaces {
            continuation_segments(s, endings, deep)
        } else {
            Seq::empty()
        }
    }
}

#[via_fn]
proof fn continuation_segments_decreases(s: Seq<char>, pos: int, deep: Seq<char>) {
    if 0 <= pos && pos + deep.len() <= s.len() {
        lemma_scan_line_content(s, pos + deep.len());
        lemma_scan_eol_run(s, scan_line_content(s, pos + deep.len()));
    }
    if 0 <= pos <= s.len() {
        lemma_scan_spaces(s, pos);
        lemma_scan_line_endings(s, scan_spaces(s, pos));
    }
}

/// The segments joined, each preceded by a single line feed.
pub open spec fn nl_join(segments: Seq<Seq<char>>) -> Seq<char>
    decreases segments.len(),
{
    if segments.len() == 0 {
        Seq::empty()
    } else {
        seq!['\n'] + segments[0] + nl_join(segments.drop_first())
    }
}

/// The text a continuation collection appends to its accumulator is
/// exactly the included segments, each preceded by a single line feed: a
/// continuation line contributes to the assembled value if and only if it
/// appears in [`continuation_segments`], and a skipped whitespace-only
/// line contributes nothing at all.
pub proof fn lemma_continuation_value(s: Seq<char>, pos: int, deep: Seq<char>, acc: Seq<char>)
    requires
        0 <= pos <= s.len(),
        deep.len() >= 1,
    ensures
        scan_continuation(s, pos, deep, acc).0 == acc + nl_join(continuation_segments(s, pos, deep)),
    decreases s.len() - pos,
{
    let content_start = pos + deep.len();
    if seq_at(s, pos, deep) && scan_line_content(s, content_start) > content_start {
        lemma_scan_line_content(s, content_start);
        let content_end = scan_line_content(s, content_start);
        lemma_scan_eol_run(s, content_end);
        let next = scan_eol_run(s, content_end);
        let content = s.subrange(content_start, content_end);
        if ws_only(content) {
            lemma_continuation_value(s, next, deep, acc);
        } else {
            lemma_continuation_value(s, next, deep, acc + seq!['\n'] + content);
            let rest = continuation_segments(s, next, deep);
            assert((seq![content] + rest).drop_first() =~= rest);
            assert((seq![content] + rest)[0] == content);
            assert(acc + seq!['\n'] + content + nl_join(rest) =~= acc + nl_join(
                seq![content] + rest,
            ));
        }
    } else {
        lemma_scan_spaces(s, pos);
        let spaces = scan_spaces(s, pos);
        lemma_scan_line_endings(s, spaces);
        let endings = scan_line_endings(s, spaces);
        if endings > spaces {
            lemma_continuation_value(s, endings, deep, acc);
        } else {
            assert(acc + nl_join(continuation_segments(s, pos, deep)) =~= acc);
        }
    }
}

/// A whitespace-only line inside a continuation never contributes a blank
/// segment to the assembled value: every included segment has substance.
pub proof fn lemma_continuation_segments_not_blank(s: Seq<char>, pos: int, deep: Seq<char>)
    requires
        0 <= pos <= s.len(),
        deep.len() >= 1,
    ensures
        forall|i: int|
            0 <= i < continuation_segments(s, pos, deep).len() ==> !ws_only(
                #[trigger] continuation_segments(s, pos, deep)[i],
            ),
    decreases s.len() - pos,
{
    let content_start = pos + deep.len();
    if seq_at(s, pos, deep) && scan_line_content(s, content_start) > content_start {
        lemma_scan_line_content(s, content_start);
        let content_end = scan_line_content(s, content_start);
        lemma_scan_eol_run(s, content_end);
        let next = scan_eol_run(s, content_end);
        let content = s.subrange(content_start, content_end);
        lemma_continuation_segments_not_blank(s, next, deep);
        if ws_only(content) {
            assert(continuation_segments(s, pos, deep) == continuation_segments(s, next, deep));
        } else {
            let rest = continuation_segments(s, next, deep);
            assert forall|i: int| 0 <= i < continuation_segments(s, pos, deep).len() implies !ws_only(
                #[trigger] continuation_segments(s, pos, deep)[i],
            ) by {
                if i == 0 {
                    assert(continuation_segments(s, pos, deep)[0] == content);
                } else {
                    assert(continuation_segments(s, pos, deep)[i] == rest[i - 1]);
                }
            }
        }
    } else {
        lemma_scan_spaces(s, pos);
        let spaces = scan_spaces(s, pos);
        lemma_scan_line_endings(s, spaces);
        let endings = scan_line_endings(s, spaces);
        if endings > spaces {
            lemma_continuation_segments_not_blank(s, endings, deep);
            assert(continuation_segments(s, pos, deep) == continuation_segments(s, endings, deep));
        } else {
            assert(continuation_segments(s, pos, deep) =~= Seq::<Seq<char>>::empty());
        }
    }
}

/// The assembled property value is the header remainder plus exactly the
/// included continuation segments, trimmed as a whole. A continuation line
/// is included in the assembled value if and only if its indentation
/// literally extends the captured deeper indentation — which itself
/// strictly extends the block's indentation — and its remainder is not
/// whitespace-only.
pub proof fn lemma_property_value_shape(s: Seq<char>, pos: int, indentation: Seq<char>)
    requires
        0 <= pos <= s.len(),
    ensures
        ({
            let first_start = scan_spaces(s, pos);
            let first_end = scan_line_content(s, first_start);
            let first = s.subrange(first_start, first_end);
            let after_line = scan_eol_run(s, first_end);
            let deep = s.subrange(after_line, scan_spaces(s, after_line));
            if deeper_indentation_at(s, after_line, indentation) {
                parse_property_value(s, pos, indentation).0 == trim_ws(
                    first + nl_join(continuation_segments(s, after_line, deep)),
                )
            } else {
                parse_property_value(s, pos, indentation).0 == trim_ws(first)
            }
        }),
{
    lemma_scan_spaces(s, pos);
    let first_start = scan_spaces(s, pos);
    lemma_scan_line_content(s, first_start);
    let first_end = scan_line_content(s, first_start);
    let first = s.subrange(first_start, first_end);
    lemma_scan_eol_run(s, first_end);
    let after_line = scan_eol_run(s, first_end);
    if deeper_indentation_at(s, after_line, indentation) {
        lemma_scan_spaces(s, after_line);
        let deep = s.subrange(after_line, scan_spaces(s, after_line));
        lemma_continuation_value(s, after_line, deep, first);
    }
}

} // verus!
