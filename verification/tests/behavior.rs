//! Tests of the parser's stated laws on concrete inputs, of its error
//! reporting, and of the workflow types around it.

use typemake::cli::CliArguments;
use typemake::error::{TypemakeError, TypemakeResult};
use typemake::interpreter::Interpreter;
use typemake::parser::{parse_typefile_content, Typefile};
use typemake::typemake::run_typemake_from_cli;
use typemake::workflow::{Tool, ToolProperty, ToolPropertyStage};

fn parser_message(result: TypemakeResult<Typefile>) -> String {
    match result {
        Err(TypemakeError::ParserError(message)) => message,
        other => panic!("expected a parser error, got {:?}", other),
    }
}

#[test]
fn tool_free_input_keeps_every_line() {
    // No line starts with `tool`: the tool mapping is empty and the
    // initialization buffer is the input with each scanned line terminated
    // by a single line feed, whatever the original line-ending style.
    let parsed = parse_typefile_content("x\n\ny\r\nz").unwrap();
    assert_eq!(parsed.code_lines, "x\ny\nz\n");
    assert!(parsed.tools.is_empty());
}

#[test]
fn near_miss_tool_lines_are_opaque_lines() {
    // Lines that begin with the letters `tool` but cannot open a block —
    // no space after the keyword, or nothing at all — fall back to opaque
    // initialization lines.
    let parsed = parse_typefile_content("toolbox\ntool5: x\ntool\ntool:\n").unwrap();
    assert_eq!(parsed.code_lines, "toolbox\ntool5: x\ntool\ntool:\n");
    assert!(parsed.tools.is_empty());
}

#[test]
fn parsing_is_deterministic() {
    let input = "abc\n\ntool mytool:\n  script: run\nrest";
    assert_eq!(parse_typefile_content(input).unwrap(), parse_typefile_content(input).unwrap());
    let failing = "tool a:\ntool a:\n";
    assert_eq!(
        parser_message(parse_typefile_content(failing)),
        parser_message(parse_typefile_content(failing))
    );
}

#[test]
fn duplicate_tool_names_fail_at_any_distance() {
    let message = parser_message(parse_typefile_content(
        "tool a:\nline one\ntool b:\nline two\nline three\ntool a:\n",
    ));
    assert_eq!(message, "Tool already exists: a");
}

#[test]
fn continuation_includes_deeper_lines_and_skips_blank_ones() {
    // Lines extending the captured deeper indentation are included; blank
    // and whitespace-only lines inside the continuation contribute nothing.
    let parsed =
        parse_typefile_content("tool a:\n  script: l1\n    l2\n\n    \n    l3\nend\n").unwrap();
    assert_eq!(parsed.code_lines, "end\n");
    assert_eq!(parsed.tools[0].script, ToolProperty::raw("l1\nl2\nl3".to_string()));
}

#[test]
fn indented_line_after_tool_block_is_terminal() {
    let message = parser_message(parse_typefile_content("tool a:\n\n  stray\n"));
    assert!(message.contains("indented line after the end of a tool definition"));
}

#[test]
fn indented_line_after_property_is_terminal() {
    let message = parser_message(parse_typefile_content("tool a:\n  script: x\n q\n"));
    assert!(message.contains("indented line after the end of a tool definition"));
}

#[test]
fn empty_property_value_is_terminal() {
    let message = parser_message(parse_typefile_content("tool a:\n  script:\nrest\n"));
    assert!(message.contains("empty property value"));
}

#[test]
fn whitespace_only_property_value_is_terminal() {
    let message = parser_message(parse_typefile_content("tool a:\n  script:   \nrest\n"));
    assert!(message.contains("empty property value"));
}

#[test]
fn duplicate_property_is_terminal() {
    // `script` and `interpreter` are two spellings for the same property,
    // so defining both on one tool is a duplicate.
    let message =
        parser_message(parse_typefile_content("tool a:\n  script: x\n  interpreter: y\n"));
    assert!(message.contains("more than once on the same tool"));
}

#[test]
fn property_value_is_trimmed_as_a_whole() {
    let parsed = parse_typefile_content("tool a:\n  script:    spaced out   \n").unwrap();
    assert_eq!(parsed.tools[0].script, ToolProperty::raw("spaced out".to_string()));
}

#[test]
fn get_tool_finds_tools_by_name() {
    let parsed = parse_typefile_content("tool a:\n  script: x\ntool b:\n").unwrap();
    assert_eq!(parsed.get_tool(&"a".to_string()).unwrap().script, ToolProperty::raw("x".to_string()));
    assert_eq!(parsed.get_tool(&"b".to_string()).unwrap().script, ToolProperty::empty());
    assert!(parsed.get_tool(&"c".to_string()).is_none());
}

#[test]
fn tool_property_stages() {
    let empty = ToolProperty::<String, String>::empty();
    assert!(empty.is_empty());
    let raw = ToolProperty::<String, String>::raw("text".to_string());
    assert!(!raw.is_empty());
    assert_eq!(raw.string_value, "text");
    assert_eq!(raw.value_stage, ToolPropertyStage::Raw);
    assert_eq!(ToolPropertyStage::<String, String>::default(), ToolPropertyStage::Empty);
    assert_eq!(ToolProperty::<String, String>::default(), empty);
}

#[test]
fn default_tool_and_typefile_are_empty() {
    let tool = Tool::default();
    assert_eq!(tool.name, "");
    assert!(tool.script.is_empty());
    let typefile = Typefile::default();
    assert_eq!(typefile.code_lines, "");
    assert!(typefile.tools.is_empty());
}

#[test]
fn cli_arguments_default_to_the_typefile_in_the_working_directory() {
    let arguments = CliArguments::default();
    assert_eq!(arguments.typefile, "Typefile");
    assert!(arguments.targets.is_empty());
}

#[test]
fn error_messages_carry_their_description() {
    assert_eq!(TypemakeError::GeneralError("boom".to_string()).message(), "boom");
    assert_eq!(TypemakeError::IoError("no such file".to_string()).message(), "no such file");
    assert_eq!(TypemakeError::InterpreterError("bad".to_string()).message(), "bad");
    assert_eq!(TypemakeError::ParserError("oops".to_string()).message(), "oops");
}

struct AcceptingInterpreter;

impl Interpreter for AcceptingInterpreter {
    fn new() -> TypemakeResult<Self> {
        Ok(AcceptingInterpreter)
    }

    fn run(&mut self, _script: &str) -> TypemakeResult<()> {
        Ok(())
    }

    fn version(&self) -> TypemakeResult<String> {
        Ok("accepting interpreter 1".to_string())
    }
}

struct FailingInterpreter;

impl Interpreter for FailingInterpreter {
    fn new() -> TypemakeResult<Self> {
        Ok(FailingInterpreter)
    }

    fn run(&mut self, _script: &str) -> TypemakeResult<()> {
        Err(TypemakeError::InterpreterError("always fails".to_string()))
    }

    fn version(&self) -> TypemakeResult<String> {
        Ok("failing interpreter 1".to_string())
    }
}

#[test]
fn run_typemake_runs_the_initialization_text() {
    let arguments = CliArguments::default();
    assert!(run_typemake_from_cli::<AcceptingInterpreter>(&arguments, "abc\ndef\n").is_ok());
}

#[test]
fn run_typemake_reports_parse_errors() {
    let arguments = CliArguments::default();
    match run_typemake_from_cli::<AcceptingInterpreter>(&arguments, "tool a:\ntool a:\n") {
        Err(TypemakeError::ParserError(message)) => {
            assert_eq!(message, "Tool already exists: a")
        },
        other => panic!("expected a parser error, got {:?}", other),
    }
}

#[test]
fn run_typemake_reports_interpreter_errors() {
    let arguments = CliArguments::default();
    match run_typemake_from_cli::<FailingInterpreter>(&arguments, "abc\n") {
        Err(TypemakeError::InterpreterError(message)) => assert_eq!(message, "always fails"),
        other => panic!("expected an interpreter error, got {:?}", other),
    }
}
