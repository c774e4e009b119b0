use tinybox::agent_client::{
    check_run_options, default_policy, destroy, exec, exit_code_of, session_root, startup_step, stop, url, valid_task_id,
    AgentError, RunOptions, Startup,
};

fn options(detach: bool, command: Vec<String>) -> RunOptions {
    RunOptions { daemon: "127.0.0.1:8080".into(), workspace: ".".into(), profile: None, rootfs: None, detach, command }
}

#[test]
fn run_options_are_checked() {
    assert_eq!(check_run_options(&options(true, Vec::new())), Ok(()));
    assert_eq!(check_run_options(&options(true, vec!["ls".into()])), Err(AgentError::DetachWithCommand));
    assert_eq!(check_run_options(&options(false, Vec::new())), Err(AgentError::MissingRunCommand));
    let mut both = options(false, vec!["ls".into()]);
    both.profile = Some("rust".into());
    both.rootfs = Some("/r".into());
    assert_eq!(check_run_options(&both), Err(AgentError::ProfileAndRoot));
}

#[test]
fn task_ids_and_calls() {
    assert!(valid_task_id("task-12"));
    assert!(!valid_task_id("task-1/../x"));
    assert!(!valid_task_id("sb-1"));
    assert_eq!(exec("task-1", Vec::new(), "/workspace".into(), 10).err(), Some(AgentError::MissingExecCommand));
    assert_eq!(exec("bad", vec!["ls".into()], "/workspace".into(), 10).err(), Some(AgentError::InvalidTaskId));
    let call = exec("task-3", vec!["ls".into()], "/workspace".into(), 10).unwrap();
    assert_eq!(call.session_file, "task-3.json");
    assert_eq!(stop("task-3").unwrap().path, "/api/tasks/task-3/stop");
    assert_eq!(destroy("task-3").unwrap().path, "/api/tasks/task-3");
    assert_eq!(url("127.0.0.1:8080", "/api/tasks"), "http://127.0.0.1:8080/api/tasks");
    assert_eq!(exit_code_of(Some(3)), 3);
    assert_eq!(exit_code_of(None), 125);
    assert_eq!(exit_code_of(Some(1 << 32)), 0);
}

#[test]
fn waiting_and_session_locations() {
    assert_eq!(startup_step(Some("running"), false), Startup::Running);
    assert_eq!(startup_step(Some("setup_failed"), false), Startup::Failed);
    assert_eq!(startup_step(Some("starting"), false), Startup::Wait);
    assert_eq!(startup_step(None, true), Startup::TimedOut);
    assert_eq!(session_root(0, None, false), "/run/tinybox/agents");
    assert_eq!(session_root(1000, Some("/run/user/1000".into()), true), "/run/user/1000/tinybox/agents");
    assert_eq!(session_root(1000, Some("/x".into()), false), "/run/user/1000/tinybox/agents");
    let policy = default_policy();
    assert_eq!(policy.resources.cpus_bits, 2.0f64.to_bits());
    assert_eq!(policy.filesystem[0].path, "/workspace");
}
