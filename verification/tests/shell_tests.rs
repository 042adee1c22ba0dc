use mini_shell::shell::{Job, Report, Shell, WaitEvent};

fn shell_with_jobs() -> Shell {
    let mut s = Shell::new("ann".to_string(), "box".to_string(), "/tmp".to_string());
    s.job_list.push(Job::new(1, 100, "sleep 5 &".to_string()));
    s.job_list.push(Job::new(2, 200, "yes &".to_string()));
    s.job_list.push(Job::new(3, 100, "dup &".to_string()));
    s
}

#[test]
fn prompt_shows_user_machine_and_directory() {
    let mut s = Shell::new("ann".to_string(), "box".to_string(), "/tmp".to_string());
    assert_eq!(s.prompt(), "ann@box:/tmp> ");
    s.update_env("bob".to_string(), "pc".to_string(), "/".to_string());
    assert_eq!(s.prompt(), "bob@pc:/> ");
    assert!(s.history.is_empty());
    assert_eq!(s.jobs, 0);
}

#[test]
fn exited_job_is_announced_and_removed() {
    let mut s = shell_with_jobs();
    let (r, again) = s.on_wait_event(WaitEvent::Exited(100));
    assert!(again);
    assert!(matches!(r, Report::Out(l) if l == "[1]+ done sleep 5 &"));
    assert_eq!(s.job_list.len(), 1);
    assert_eq!(s.job_list[0].pid, 200);
}

#[test]
fn unknown_child_exit_is_silent() {
    let mut s = shell_with_jobs();
    let (r, again) = s.on_wait_event(WaitEvent::Exited(999));
    assert!(again);
    assert!(matches!(r, Report::Silent));
    assert_eq!(s.job_list.len(), 3);
}

#[test]
fn killed_child_is_reported_and_removed() {
    let mut s = shell_with_jobs();
    let (r, again) = s.on_wait_event(WaitEvent::Signaled(200, "SIGKILL".to_string()));
    assert!(again);
    assert!(matches!(r, Report::Out(l) if l == "Child 200 was killed by signal: SIGKILL"));
    assert_eq!(s.job_list.len(), 2);
}

#[test]
fn waiting_stops_when_nothing_is_left() {
    let mut s = shell_with_jobs();
    assert!(matches!(s.on_wait_event(WaitEvent::StillAlive), (Report::Silent, false)));
    assert!(matches!(s.on_wait_event(WaitEvent::NoChildren), (Report::Silent, false)));
    let (r, again) = s.on_wait_event(WaitEvent::Failed("EINTR".to_string()));
    assert!(!again);
    assert!(matches!(r, Report::Error(l) if l == "Error waiting for child process: EINTR"));
    let (r, again) = s.on_wait_event(WaitEvent::Other);
    assert!(again);
    assert!(matches!(r, Report::Out(l) if l == "Other state change occurred (Stopped/Continued)."));
    assert_eq!(s.job_list.len(), 3);
}
