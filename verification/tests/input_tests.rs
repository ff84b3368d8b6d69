use script::repl::input::{
    is_multiline_complete, is_multiline_start, needs_continuation, parse_command, records_in_history, MultilineInput,
    ReplCommand, ReplMode,
};

#[test]
fn test_needs_continuation_open_brace() {
    assert!(needs_continuation("fn main() {"));
    assert!(needs_continuation("let v = [1, 2"));
    assert!(needs_continuation("foo(1,"));
    assert!(!needs_continuation("let x = 1;"));
    assert!(!needs_continuation("fn f() { g(1) }"));
}

#[test]
fn test_needs_continuation_strings() {
    assert!(needs_continuation("let s = \"abc"));
    assert!(!needs_continuation("let s = \"{[(\";"));
    assert!(!needs_continuation("let s = \"a\\\"b\";"));
    assert!(needs_continuation("let s = \"a\\\""));
}

#[test]
fn test_needs_continuation_extra_closing() {
    assert!(!needs_continuation("}"));
    assert!(!needs_continuation(")) ("));
}

#[test]
fn test_multiline_start_keywords() {
    assert!(is_multiline_start("struct Point"));
    assert!(is_multiline_start("  enum Color"));
    assert!(is_multiline_start("type Id = i32"));
    assert!(is_multiline_start("fn main()"));
    assert!(is_multiline_start("pub fn main()"));
    assert!(is_multiline_start("impl Point"));
    assert!(is_multiline_start("mod util"));
    assert!(is_multiline_start("if x {   "));
    assert!(!is_multiline_start("let x = 1;"));
    assert!(!is_multiline_start("structure"));
    assert!(!is_multiline_start("   "));
}

#[test]
fn test_multiline_complete() {
    assert!(is_multiline_complete("   ", "fn f() {\n"));
    assert!(is_multiline_complete("}", "fn f() {\n}\n"));
    assert!(!is_multiline_complete("let x = 1;", "fn f() {\nlet x = 1;\n"));
}

#[test]
fn test_multiline_input_collects_block() {
    let mut m = MultilineInput::new();
    assert!(!m.in_multiline);
    m.start_multiline_input("fn f() {");
    assert!(m.in_multiline);
    assert_eq!(m.buffer, "fn f() {\n");
    assert_eq!(m.feed_line("let x = 1;"), None);
    assert_eq!(m.buffer, "fn f() {\nlet x = 1;\n");
    assert_eq!(m.feed_line("}"), Some("fn f() {\nlet x = 1;\n}\n".to_string()));
    assert!(!m.in_multiline);
    assert_eq!(m.buffer, "");
}

#[test]
fn test_multiline_input_blank_line_ends_block() {
    let mut m = MultilineInput::new();
    m.start_multiline_input("fn f() {");
    assert_eq!(m.feed_line(""), Some("fn f() {\n\n".to_string()));
}

#[test]
fn test_parse_command_names() {
    assert_eq!(parse_command(":exit"), ReplCommand::Exit);
    assert_eq!(parse_command("  :quit  "), ReplCommand::Exit);
    assert_eq!(parse_command(":help"), ReplCommand::Help);
    assert_eq!(parse_command(":tokens"), ReplCommand::SwitchMode(ReplMode::Tokens));
    assert_eq!(parse_command(":interactive"), ReplCommand::SwitchMode(ReplMode::Interactive));
    assert_eq!(parse_command(":parse"), ReplCommand::SwitchMode(ReplMode::Parse));
    assert_eq!(parse_command(":debug"), ReplCommand::SwitchMode(ReplMode::Debug));
    assert_eq!(parse_command(":history"), ReplCommand::History);
    assert_eq!(parse_command(":clear"), ReplCommand::Clear);
    assert_eq!(parse_command(":vars"), ReplCommand::Vars);
    assert_eq!(parse_command(":types"), ReplCommand::Types);
    assert_eq!(parse_command(":funcs"), ReplCommand::Funcs);
    assert_eq!(parse_command(":modules"), ReplCommand::Modules);
    assert_eq!(parse_command(":save"), ReplCommand::Save);
    assert_eq!(parse_command(":load"), ReplCommand::Load);
    assert_eq!(parse_command(":exits"), ReplCommand::Unknown);
    assert_eq!(parse_command(":"), ReplCommand::Unknown);
}

#[test]
fn test_records_in_history() {
    assert!(records_in_history("let x = 1"));
    assert!(!records_in_history("   "));
    assert!(!records_in_history(":help"));
    assert!(records_in_history(" :help"));
}
