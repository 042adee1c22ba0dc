use mini_shell::lexer::get_tokens;

#[test]
fn tokens_split_on_single_spaces() {
    assert_eq!(get_tokens("ls -l /tmp"), vec!["ls", "-l", "/tmp"]);
}

#[test]
fn tokens_skip_repeated_and_edge_spaces() {
    assert_eq!(get_tokens("  echo   hi  "), vec!["echo", "hi"]);
}

#[test]
fn tokens_of_blank_line_are_none() {
    assert!(get_tokens("").is_empty());
    assert!(get_tokens("     ").is_empty());
}

#[test]
fn tokens_keep_other_whitespace() {
    assert_eq!(get_tokens("ls\tx y\n"), vec!["ls\tx", "y\n"]);
}

#[test]
fn tokens_keep_non_ascii_characters() {
    assert_eq!(get_tokens("é ü|ß"), vec!["é", "ü|ß"]);
}

#[test]
fn every_token_is_a_nonempty_word() {
    for line in ["a  b", " | > < & ", "x", "  "] {
        for t in get_tokens(line) {
            assert!(!t.is_empty());
            assert!(!t.contains(' '));
        }
    }
}

#[test]
fn tokens_survive_joining_with_spaces() {
    for line in ["  a\tb  c ", "x", "", "p | q > r &"] {
        let v = get_tokens(line);
        let joined = v.join(" ");
        assert_eq!(get_tokens(&joined), v);
    }
}
