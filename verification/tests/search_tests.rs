use mini_shell::exec::{waits_for_children, launch_plan, needs_pipe, not_found_message, parent_fds, stdin_source, stdout_target, StdinSource, StdoutTarget};
use mini_shell::parser::parse_tokens;
use mini_shell::path_search::{candidate_paths, is_executable_mode, pick_command};

#[test]
fn slash_names_are_taken_as_paths() {
    assert_eq!(candidate_paths("./run", Some("/bin".to_string())), vec!["./run"]);
    assert_eq!(candidate_paths("/bin/ls", None), vec!["/bin/ls"]);
}

#[test]
fn names_are_searched_in_path_order() {
    assert_eq!(candidate_paths("ls", Some("/usr/bin:/bin".to_string())), vec!["/usr/bin/ls", "/bin/ls"]);
}

#[test]
fn empty_path_entry_is_current_directory() {
    assert_eq!(candidate_paths("ls", Some(":/bin:".to_string())), vec!["./ls", "/bin/ls", "./ls"]);
}

#[test]
fn unset_path_finds_nothing() {
    assert!(candidate_paths("ls", None).is_empty());
}

#[test]
fn first_executable_candidate_wins() {
    let c = vec!["a".to_string(), "b".to_string(), "c".to_string()];
    assert_eq!(pick_command(&c, &vec![false, true, true]), Some("b".to_string()));
    assert_eq!(pick_command(&c, &vec![false, false, false]), None);
}

#[test]
fn executable_needs_a_file_with_an_execute_bit() {
    assert!(is_executable_mode(true, 0o755));
    assert!(is_executable_mode(true, 0o001));
    assert!(!is_executable_mode(true, 0o644));
    assert!(!is_executable_mode(false, 0o755));
}

#[test]
fn plan_has_one_stage_per_command() {
    let c = parse_tokens(vec!["cat", "<", "in", "|", "wc", "-l", ">", "out"]).unwrap();
    let p = launch_plan(&c);
    assert_eq!(p.len(), 2);
    assert_eq!(p[0].name, "cat");
    assert!(p[0].args.is_empty());
    assert!(!p[0].last);
    assert_eq!(p[0].in_file.as_deref(), Some("in"));
    assert_eq!(p[1].name, "wc");
    assert_eq!(p[1].args, vec!["-l".to_string()]);
    assert!(p[1].last);
    assert_eq!(p[1].out_file.as_deref(), Some("out"));
    assert_eq!(not_found_message("nope"), "nope: command not found");
}

#[test]
fn pipes_and_redirections() {
    assert!(needs_pipe(false, &None));
    assert!(!needs_pipe(true, &None));
    assert!(!needs_pipe(false, &Some("f".to_string())));
    assert!(matches!(stdin_source(5, &Some("f".to_string())), StdinSource::File(p) if p == "f"));
    assert!(matches!(stdin_source(5, &None), StdinSource::Fd(5)));
    assert!(matches!(stdin_source(0, &None), StdinSource::Inherit));
    assert!(matches!(stdout_target(false, &Some("o".to_string())), StdoutTarget::File(p) if p == "o"));
    assert!(matches!(stdout_target(false, &None), StdoutTarget::Pipe));
    assert!(matches!(stdout_target(true, &None), StdoutTarget::Inherit));
    assert_eq!(parent_fds(0, Some(7)), (None, 7));
    assert_eq!(parent_fds(4, None), (Some(4), 4));
    assert_eq!(parent_fds(4, Some(9)), (Some(4), 9));
}

#[test]
fn background_lines_are_not_waited_for() {
    assert!(waits_for_children(&parse_tokens(vec!["ls"]).unwrap()));
    assert!(!waits_for_children(&parse_tokens(vec!["ls", "&"]).unwrap()));
}
