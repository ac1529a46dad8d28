use clawlet_core::exec::{conclude, conclude_captured, plan_command, Outcome};

#[test]
fn empty_argv_runs_nothing() {
    let r = plan_command(&vec![], "", 5000).unwrap_err();
    assert!(!r.success);
    assert_eq!(r.exit_code, -1);
    assert_eq!(r.stdout, "");
    assert_eq!(r.stderr, "");
    assert_eq!(r.error, "Empty argv");
}

#[test]
fn plan_splits_program_and_args() {
    let argv = vec!["echo".to_string(), "a".to_string(), "b c".to_string()];
    let l = plan_command(&argv, "/tmp", 5000).unwrap();
    assert_eq!(l.program, "echo");
    assert_eq!(l.args, vec!["a".to_string(), "b c".to_string()]);
    assert_eq!(l.cwd, Some("/tmp".to_string()));
    assert_eq!(l.wait_ms, 5000);
}

#[test]
fn plan_keeps_caller_directory_and_minimal_wait() {
    let l = plan_command(&vec!["true".to_string()], "", 0).unwrap();
    assert_eq!(l.program, "true");
    assert!(l.args.is_empty());
    assert_eq!(l.cwd, None);
    assert_eq!(l.wait_ms, 1);
}

#[test]
fn clean_exit_succeeds() {
    let r = conclude(Outcome::Exited(Some(0)), "hello\n".to_string(), String::new(), 5000);
    assert!(r.success);
    assert_eq!(r.exit_code, 0);
    assert_eq!(r.stdout, "hello\n");
    assert_eq!(r.stderr, "");
    assert_eq!(r.error, "");
}

#[test]
fn nonzero_exit_reports_code() {
    let r = conclude(Outcome::Exited(Some(3)), String::new(), "bad\n".to_string(), 5000);
    assert!(!r.success);
    assert_eq!(r.exit_code, 3);
    assert_eq!(r.stderr, "bad\n");
    assert_eq!(r.error, "Exit code: 3");
    let r = conclude(Outcome::Exited(Some(-2)), String::new(), String::new(), 5000);
    assert_eq!(r.error, "Exit code: -2");
}

#[test]
fn exit_without_code_fails() {
    let r = conclude(Outcome::Exited(None), String::new(), String::new(), 5000);
    assert!(!r.success);
    assert_eq!(r.exit_code, -1);
    assert_eq!(r.error, "Exit code: -1");
}

#[test]
fn timeout_keeps_partial_output() {
    let r = conclude(Outcome::TimedOut, "part".to_string(), "warn".to_string(), 100);
    assert!(!r.success);
    assert_eq!(r.exit_code, -1);
    assert_eq!(r.stdout, "part");
    assert_eq!(r.stderr, "warn");
    assert!(r.error.contains("timed out"));
    assert_eq!(r.error, "Command timed out after 0.1s");
}

#[test]
fn timeout_seconds_are_rounded_to_tenths() {
    let r = conclude(Outcome::TimedOut, String::new(), String::new(), 12345);
    assert_eq!(r.error, "Command timed out after 12.3s");
    let r = conclude(Outcome::TimedOut, String::new(), String::new(), 2960);
    assert_eq!(r.error, "Command timed out after 3.0s");
}

#[test]
fn spawn_and_wait_failures_drop_output() {
    let r = conclude(Outcome::SpawnFailed("not found".to_string()), "x".to_string(), "y".to_string(), 5000);
    assert!(!r.success);
    assert_eq!(r.exit_code, -1);
    assert_eq!(r.stdout, "");
    assert_eq!(r.stderr, "");
    assert_eq!(r.error, "Spawn error: not found");
    let r = conclude(Outcome::WaitFailed("interrupted".to_string()), "x".to_string(), String::new(), 5000);
    assert_eq!(r.stdout, "");
    assert_eq!(r.error, "Wait error: interrupted");
}

#[test]
fn captured_bytes_are_decoded_lossily() {
    let r = conclude_captured(Outcome::Exited(Some(0)), &b"ok \xff!".to_vec(), &vec![], 5000);
    assert!(r.success);
    assert_eq!(r.stdout, "ok \u{fffd}!");
    assert_eq!(r.stderr, "");
}
