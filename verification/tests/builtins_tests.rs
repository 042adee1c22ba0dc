use mini_shell::builtins::{cd_check, cd_target, dispatch, exit_lines, is_builtin, jobs_lines, record_line, Action, CdError};
use mini_shell::parser::parse_tokens;
use mini_shell::shell::Job;

#[test]
fn builtin_names() {
    assert!(is_builtin("exit"));
    assert!(is_builtin("cd"));
    assert!(is_builtin("jobs"));
    assert!(!is_builtin("ls"));
    assert!(!is_builtin("exits"));
    assert!(!is_builtin(""));
}

fn strs(v: &[&str]) -> Vec<String> {
    v.iter().map(|s| s.to_string()).collect()
}

#[test]
fn cd_goes_home_without_arguments() {
    assert_eq!(cd_target(&[], Some("/home/u".to_string())).ok(), Some("/home/u".to_string()));
    let e = cd_target(&[], None).unwrap_err();
    assert_eq!(e.message(), "cd: HOME not set");
}

#[test]
fn cd_goes_to_its_argument() {
    assert_eq!(cd_target(&strs(&["/tmp"]), None).ok(), Some("/tmp".to_string()));
}

#[test]
fn cd_refuses_two_arguments() {
    let e = cd_target(&strs(&["a", "b"]), Some("/h".to_string())).unwrap_err();
    assert!(matches!(e, CdError::TooManyArguments));
    assert_eq!(e.message(), "cd: too many arguments");
}

#[test]
fn cd_checks_the_target() {
    assert_eq!(cd_check("d".to_string(), true, true).ok(), Some("d".to_string()));
    assert_eq!(cd_check("d".to_string(), false, false).unwrap_err().message(), "cd: d: No such file or directory");
    assert_eq!(cd_check("f".to_string(), true, false).unwrap_err().message(), "cd: f: Not a directory");
    assert_eq!(CdError::CannotChange("x".to_string()).message(), "cd: x: could not change directory");
}

#[test]
fn jobs_lists_each_job() {
    let jobs = vec![Job::new(1, 4242, "sleep 10 &".to_string()), Job::new(12, 7, "x".to_string())];
    assert_eq!(jobs_lines(&jobs), vec!["[1]+ 4242 sleep 10 &", "[12]+ 7 x"]);
    assert_eq!(jobs_lines(&vec![]), vec!["No active background processes"]);
    assert_eq!(jobs_lines(&vec![Job::new(0, -3, "y".to_string())]), vec!["[0]+ -3 y"]);
}

#[test]
fn exit_reports_the_last_commands() {
    assert_eq!(exit_lines(&vec![]), vec!["No valid commands"]);
    assert_eq!(exit_lines(&strs(&["a"])), vec!["Last valid command:", "a"]);
    assert_eq!(exit_lines(&strs(&["a", "b"])), vec!["Last valid command:", "b"]);
    assert_eq!(exit_lines(&strs(&["a", "b", "c", "d"])), vec!["Last three valid commands:", "b", "c", "d"]);
}

#[test]
fn dispatch_picks_the_builtin() {
    let c = parse_tokens(vec!["cd", "/tmp"]).unwrap();
    match dispatch(&c) {
        Action::Cd(a) => assert_eq!(a, vec!["/tmp".to_string()]),
        _ => panic!("expected cd"),
    }
    assert!(matches!(dispatch(&parse_tokens(vec!["exit"]).unwrap()), Action::Exit));
    assert!(matches!(dispatch(&parse_tokens(vec!["jobs", "|", "wc"]).unwrap()), Action::Jobs));
    assert!(matches!(dispatch(&parse_tokens(vec!["ls"]).unwrap()), Action::Run));
    assert!(matches!(dispatch(&mini_shell::command::Command::new()), Action::Nothing));
}

#[test]
fn history_records_valid_lines_and_exit_stops() {
    let mut h: Vec<String> = Vec::new();
    assert!(!record_line(&mut h, &Action::Jobs, false, "jobs".to_string()));
    assert!(!record_line(&mut h, &Action::Run, true, "ls".to_string()));
    assert!(!record_line(&mut h, &Action::Run, false, "nope".to_string()));
    assert!(!record_line(&mut h, &Action::Cd(vec![]), false, "cd x".to_string()));
    assert!(!record_line(&mut h, &Action::Cd(vec![]), true, "cd".to_string()));
    assert!(!record_line(&mut h, &Action::Nothing, true, "".to_string()));
    assert!(record_line(&mut h, &Action::Exit, true, "exit".to_string()));
    assert_eq!(h, vec!["jobs".to_string(), "ls".to_string(), "cd".to_string()]);
}
