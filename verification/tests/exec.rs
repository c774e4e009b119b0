use tinybox::exec::{check_exec, exit_code_from, in_tinybox_cgroup, ExecError};
use tinybox::sandbox::WaitOutcome;

#[test]
fn exec_needs_a_command() {
    assert_eq!(check_exec(&vec![], "0::/tinybox-1"), Err(ExecError::NoCommand));
}

#[test]
fn exec_targets_only_tinybox_cgroups() {
    let command = vec!["sh".to_string()];
    assert_eq!(check_exec(&command, "0::/tinybox-sb-1\n"), Ok(()));
    assert_eq!(check_exec(&command, "0::/user.slice/session-1.scope\n"), Err(ExecError::NotSandboxed));
    assert!(in_tinybox_cgroup("12:pids:/tinybox-task-3"));
    assert!(!in_tinybox_cgroup("tinybox"));
}

#[test]
fn exec_exit_codes() {
    assert_eq!(exit_code_from(WaitOutcome::Exited(3)), 3);
    assert_eq!(exit_code_from(WaitOutcome::Signaled(9)), 137);
    assert_eq!(exit_code_from(WaitOutcome::Other), 1);
}

#[test]
fn exec_errors_name_the_process() {
    assert_eq!(
        ExecError::NotSandboxed.message(42),
        "pid 42 is not in a tinybox cgroup; refusing to exec into an arbitrary host process"
    );
    assert_eq!(ExecError::NoCommand.message(42), "no command specified");
}
