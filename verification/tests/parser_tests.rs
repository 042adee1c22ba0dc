use mini_shell::command::{Command, SimpleCommand};
use mini_shell::parser::parse_tokens;

fn args(c: &SimpleCommand) -> Vec<&str> {
    c.arguments.iter().map(|s| s.as_str()).collect()
}

#[test]
fn parses_a_single_command_with_arguments() {
    let c = parse_tokens(vec!["ls", "-l", "/tmp"]).unwrap();
    assert_eq!(c.simple_commands.len(), 1);
    assert_eq!(args(&c.simple_commands[0]), vec!["ls", "-l", "/tmp"]);
    assert!(!c.background);
    assert_eq!(c.cmd_line, "ls -l /tmp");
    assert_eq!(c.simple_commands[0].in_file, None);
    assert_eq!(c.simple_commands[0].out_file, None);
}

#[test]
fn parses_a_pipeline_with_redirections_and_background() {
    let c = parse_tokens(vec!["cat", "<", "in.txt", "|", "sort", "-r", ">", "out.txt", "&"]).unwrap();
    assert_eq!(c.simple_commands.len(), 2);
    assert_eq!(args(&c.simple_commands[0]), vec!["cat"]);
    assert_eq!(c.simple_commands[0].in_file.as_deref(), Some("in.txt"));
    assert_eq!(c.simple_commands[0].out_file, None);
    assert_eq!(args(&c.simple_commands[1]), vec!["sort", "-r"]);
    assert_eq!(c.simple_commands[1].out_file.as_deref(), Some("out.txt"));
    assert!(c.background);
    assert_eq!(c.cmd_line, "cat < in.txt | sort -r > out.txt &");
}

#[test]
fn later_redirection_replaces_earlier() {
    let c = parse_tokens(vec!["echo", ">", "a", ">", "b"]).unwrap();
    assert_eq!(c.simple_commands[0].out_file.as_deref(), Some("b"));
}

#[test]
fn empty_line_is_incomplete() {
    assert_eq!(parse_tokens(vec![]).unwrap_err(), "Incomplete command");
}

#[test]
fn trailing_operators_are_incomplete() {
    assert_eq!(parse_tokens(vec!["ls", "|"]).unwrap_err(), "Incomplete command");
    assert_eq!(parse_tokens(vec!["ls", ">"]).unwrap_err(), "Incomplete command");
    assert_eq!(parse_tokens(vec!["ls", "<"]).unwrap_err(), "Incomplete command");
}

#[test]
fn leading_operators_are_unexpected() {
    assert_eq!(parse_tokens(vec!["|", "ls"]).unwrap_err(), "Unexpected |");
    assert_eq!(parse_tokens(vec![">", "f"]).unwrap_err(), "Unexpected >");
    assert_eq!(parse_tokens(vec!["<", "f"]).unwrap_err(), "Unexpected <");
    assert_eq!(parse_tokens(vec!["&"]).unwrap_err(), "Unexpected &");
}

#[test]
fn doubled_operators_are_unexpected() {
    assert_eq!(parse_tokens(vec!["ls", "|", "|", "wc"]).unwrap_err(), "Unexpected |");
    assert_eq!(parse_tokens(vec!["ls", ">", "<"]).unwrap_err(), "Unexpected <");
    assert_eq!(parse_tokens(vec!["ls", "&", "&"]).unwrap_err(), "Unexpected &");
}

#[test]
fn word_after_redirection_target_is_unexpected() {
    assert_eq!(parse_tokens(vec!["ls", ">", "f", "x"]).unwrap_err(), "Unexpected syntax: x");
}

#[test]
fn anything_after_ampersand_is_unexpected() {
    assert_eq!(parse_tokens(vec!["ls", "&", "x"]).unwrap_err(), "Unexpected syntax: x");
    assert_eq!(parse_tokens(vec!["ls", "&", "|"]).unwrap_err(), "Unexpected |");
}

#[test]
fn pipe_after_redirection_is_accepted() {
    let c = parse_tokens(vec!["a", ">", "f", "|", "b"]).unwrap();
    assert_eq!(c.simple_commands.len(), 2);
    assert_eq!(c.simple_commands[0].out_file.as_deref(), Some("f"));
    assert_eq!(args(&c.simple_commands[1]), vec!["b"]);
}

#[test]
fn pipeline_has_one_more_command_than_pipes() {
    let c = parse_tokens(vec!["a", "|", "b", "x", "|", "c"]).unwrap();
    assert_eq!(c.simple_commands.len(), 3);
    for sc in &c.simple_commands {
        assert!(!sc.arguments.is_empty());
    }
}

#[test]
fn command_building_blocks() {
    let mut s = SimpleCommand::new();
    assert!(s.arguments.is_empty());
    s.insert_argument("x".to_string());
    assert_eq!(args(&s), vec!["x"]);
    let t = SimpleCommand::new_with_command("ls");
    assert_eq!(args(&t), vec!["ls"]);
    assert_eq!(t.err_file, None);
    let mut c = Command::new();
    assert!(c.simple_commands.is_empty());
    c.insert_simple_command(t);
    c.background = true;
    c.cmd_line = "ls".to_string();
    assert_eq!(c.simple_commands.len(), 1);
    c.clear();
    assert!(c.simple_commands.is_empty());
    assert!(!c.background);
    assert_eq!(c.cmd_line, "");
}
