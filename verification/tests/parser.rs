//! Tests of the typefile parser against whole input texts.

use typemake::parser::{parse_typefile_content, Typefile};
use typemake::workflow::{Tool, ToolProperty};

fn code_only(code_lines: &str) -> Typefile {
    Typefile { code_lines: code_lines.to_string(), tools: vec![] }
}

fn named_tool(name: &str) -> Tool {
    Tool { name: name.to_string(), script: ToolProperty::empty() }
}

fn scripted_tool(name: &str, script: &str) -> Tool {
    Tool { name: name.to_string(), script: ToolProperty::raw(script.to_string()) }
}

#[test]
fn test_empty_typefile() {
    assert_eq!(parse_typefile_content("").unwrap(), Typefile::default());
}

#[test]
fn test_few_code_lines() {
    assert_eq!(parse_typefile_content("abc\ndef").unwrap(), code_only("abc\ndef\n"));
}

#[test]
fn test_tool_name_definition() {
    assert_eq!(
        parse_typefile_content("abc\n\ntool mytool:\ndef\nefg").unwrap(),
        Typefile { code_lines: "abc\ndef\nefg\n".to_string(), tools: vec![named_tool("mytool")] }
    );
}

#[test]
fn test_duplicate_tool_name_definition() {
    parse_typefile_content("abc\n\ntool mytool:\ntool mytool:\ndef\nefg").unwrap_err();
}

#[test]
fn test_tool_script_definition() {
    assert_eq!(
        parse_typefile_content("abc\n\ntool mytool:\n  interpreter: \"ls -l\"\ndef\nefg").unwrap(),
        Typefile {
            code_lines: "abc\ndef\nefg\n".to_string(),
            tools: vec![scripted_tool("mytool", "\"ls -l\"")],
        }
    );
}

#[test]
fn test_tool_multiline_script_definition() {
    assert_eq!(
        parse_typefile_content(
            "abc\n\ntool mytool:\n  interpreter: \"\"\"ls -l\n    pwd\"\"\"\ndef\nefg"
        )
        .unwrap(),
        Typefile {
            code_lines: "abc\ndef\nefg\n".to_string(),
            tools: vec![scripted_tool("mytool", "\"\"\"ls -l\npwd\"\"\"")],
        }
    );
}

#[test]
fn test_tool_multiline_script_definition_start_second_line() {
    assert_eq!(
        parse_typefile_content(
            "abc\n\ntool mytool:\n  interpreter: \n    \"\"\"ls -l\n    pwd\"\"\"\ndef\nefg"
        )
        .unwrap(),
        Typefile {
            code_lines: "abc\ndef\nefg\n".to_string(),
            tools: vec![scripted_tool("mytool", "\"\"\"ls -l\npwd\"\"\"")],
        }
    );
}

#[test]
fn test_code_line_indentation() {
    assert_eq!(
        parse_typefile_content("abc\n def \n  efg\nfgh\n\tghi").unwrap(),
        code_only("abc\n def \n  efg\nfgh\n\tghi\n")
    );
}

#[test]
fn test_wrong_tool_property_indentation() {
    parse_typefile_content(
        "abc\n\ntool mytool:\n  interpreter:\n    interpreter\n   missing-indentation\n    blub\ndef\nefg",
    )
    .unwrap_err();
}

#[test]
fn script_property_name_is_recognised() {
    assert_eq!(
        parse_typefile_content("tool mytool:\n  script: \"ls -l\"\n").unwrap(),
        Typefile { code_lines: String::new(), tools: vec![scripted_tool("mytool", "\"ls -l\"")] }
    );
}

#[test]
fn script_property_multiline_relative_indentation_is_trimmed() {
    assert_eq!(
        parse_typefile_content("tool mytool:\n  script: \"\"\"ls -l\n    pwd\"\"\"\n").unwrap(),
        Typefile {
            code_lines: String::new(),
            tools: vec![scripted_tool("mytool", "\"\"\"ls -l\npwd\"\"\"")],
        }
    );
}

#[test]
fn crlf_line_endings_are_normalised() {
    assert_eq!(
        parse_typefile_content("tool a:\r\n  script: x\r\ny\r\n").unwrap(),
        Typefile { code_lines: "y\n".to_string(), tools: vec![scripted_tool("a", "x")] }
    );
}

#[test]
fn leading_blank_line_is_an_opaque_line() {
    assert_eq!(parse_typefile_content("\nabc").unwrap(), code_only("\nabc\n"));
}

#[test]
fn header_without_line_ending_is_a_code_line() {
    assert_eq!(parse_typefile_content("tool mytool:").unwrap(), code_only("tool mytool:\n"));
}

#[test]
fn tool_block_with_blank_lines_before_properties() {
    assert_eq!(
        parse_typefile_content("tool a:\n\n  script: x\nrest\n").unwrap(),
        Typefile { code_lines: "rest\n".to_string(), tools: vec![scripted_tool("a", "x")] }
    );
}

#[test]
fn tab_indentation_is_accepted_literally() {
    assert_eq!(
        parse_typefile_content("tool a:\n\tscript: x\n").unwrap(),
        Typefile { code_lines: String::new(), tools: vec![scripted_tool("a", "x")] }
    );
}

#[test]
fn tabs_are_not_equivalent_to_spaces_in_continuations() {
    // The block's indentation is two spaces; the would-be continuation line
    // is indented with tabs. The literal prefix comparison rejects it, and
    // the leftover indented line is a terminal error.
    parse_typefile_content("tool a:\n  script: x\n\t\t\ty\nz\n").unwrap_err();
}
