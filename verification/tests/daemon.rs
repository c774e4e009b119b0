use tinybox::daemon::{
    constant_time_eq, token_from_bytes, validate_task_env, AppState, CreateError, CreateRequest, Kind, PhaseOutcome,
    RemoveOutcome, RunOutcome, Status, TaskCreateError, TaskCreateRequest, TaskDenial,
};
use tinybox::policy::{CapabilityDescriptor, FsAccess, FsRule, NetworkRule, PhasePolicy, ResourcePolicy, POLICY_VERSION};

#[test]
fn task_tokens_use_exact_constant_time_comparison() {
    assert!(constant_time_eq("abc123", "abc123"));
    assert!(!constant_time_eq("abc123", "abc124"));
    assert!(!constant_time_eq("abc123", "short"));
}

#[test]
fn task_environment_is_allowlisted() {
    assert!(validate_task_env(&["PATH=/usr/bin:/bin".into(), "LANG=C".into()]).is_ok());
    assert!(validate_task_env(&["AWS_SECRET_ACCESS_KEY=secret".into()]).is_err());
    assert!(validate_task_env(&["MALFORMED".into()]).is_err());
}

#[test]
fn task_env_errors_name_the_variable() {
    let error = validate_task_env(&["LANG=C".into(), "HOME".into()]).unwrap_err();
    assert_eq!(error.message(), "task env entries must use NAME=VALUE");
    let error = validate_task_env(&["SECRET=1".into()]).unwrap_err();
    assert_eq!(error.message(), "task environment variable is not allowlisted: SECRET");
}

#[test]
fn tokens_are_lowercase_hex() {
    assert_eq!(token_from_bytes(&[0x00, 0xab, 0x7f]), "00ab7f");
}

fn resources(memory_bytes: u64, cpus: f64, pids: u64) -> ResourcePolicy {
    ResourcePolicy { memory_bytes, cpus_bits: cpus.to_bits(), pids }
}

fn phased_policy() -> CapabilityDescriptor {
    let net = vec![NetworkRule { host: "example.com".into(), port: 443 }];
    CapabilityDescriptor {
        version: POLICY_VERSION,
        filesystem: Vec::new(),
        network: net.iter().map(|r| NetworkRule { host: r.host.clone(), port: r.port }).collect(),
        resources: resources(512 * 1024 * 1024, 1.0, 50),
        phases: vec![
            PhasePolicy {
                name: "install".into(),
                network: net,
                resources: resources(256 * 1024 * 1024, 0.5, 25),
                next: vec!["build".into()],
            },
            PhasePolicy { name: "build".into(), network: Vec::new(), resources: resources(128 * 1024 * 1024, 0.25, 10), next: Vec::new() },
        ],
    }
}

fn request(policy: Option<CapabilityDescriptor>) -> CreateRequest {
    CreateRequest {
        rootfs: "/rootfs".into(),
        command: vec!["/bin/true".into()],
        memory_limit_mb: None,
        cpus_bits: None,
        pids_limit: None,
        volumes: Vec::new(),
        hostname: None,
        env: Vec::new(),
        root_readonly: None,
        proxy: None,
        dangerous: None,
        policy,
    }
}

#[test]
fn create_refuses_empty_dangerous_and_over_ceiling_requests() {
    let mut state = AppState::new();
    let mut r = request(None);
    r.command.clear();
    assert_eq!(state.create(r, b"").err(), Some(CreateError::EmptyCommand));
    let mut r = request(None);
    r.dangerous = Some(true);
    assert_eq!(state.create(r, b"").err(), Some(CreateError::DangerousRefused));
    let mut r = request(Some(phased_policy()));
    r.memory_limit_mb = Some(1024);
    assert_eq!(state.create(r, b"{}").err(), Some(CreateError::ExceedsCeiling));
    let mut r = request(Some(phased_policy()));
    r.cpus_bits = Some(2.0f64.to_bits());
    assert_eq!(state.create(r, b"{}").err(), Some(CreateError::ExceedsCeiling));
    assert!(state.sandboxes().is_empty());
}

#[test]
fn created_sandbox_starts_in_first_phase_and_moves_along_the_graph() {
    let mut state = AppState::new();
    let launch = state.create(request(Some(phased_policy())), b"{\"version\":1}").unwrap();
    assert_eq!(launch.id, "sb-1");
    assert_eq!(launch.phase.as_deref(), Some("install"));
    assert!(launch.policy_hash.as_deref().unwrap().starts_with("sha256:"));
    assert_eq!(launch.config.memory, Some(256 * 1024 * 1024));
    assert_eq!(launch.config.cgroup_name.as_deref(), Some("tinybox-sb-1"));
    let entry = state.get("sb-1").unwrap();
    assert_eq!(entry.status, Status::Running);
    assert_eq!(entry.cgroup_path, "/sys/fs/cgroup/tinybox-sb-1");
    assert_eq!(state.audit_events("sb-1").unwrap().events[0].capability, "policy.load");

    assert!(state.phase_target("sb-1", "build", 0).is_some());
    match state.change_phase("sb-1", "build", 0, None) {
        PhaseOutcome::Changed(phase, generation) => {
            assert_eq!(phase, "build");
            assert_eq!(generation, 1);
        }
        other => panic!("unexpected {other:?}"),
    }
    // Replaying the same compare-and-swap request is refused.
    match state.change_phase("sb-1", "build", 0, None) {
        PhaseOutcome::Denied(reason) => assert_eq!(reason, "phase generation mismatch"),
        other => panic!("unexpected {other:?}"),
    }
    match state.change_phase("sb-1", "install", 1, None) {
        PhaseOutcome::Denied(reason) => assert_eq!(reason, "phase transition is not allowed"),
        other => panic!("unexpected {other:?}"),
    }
    let events = state.audit_events("sb-1").unwrap().events;
    assert_eq!(events.len(), 4);
    assert_eq!(events[1].decision, "allow");
    assert_eq!(events[1].phase, "build");
    assert_eq!(events[2].decision, "deny");
}

#[test]
fn phase_change_reports_resource_update_failure() {
    let mut state = AppState::new();
    state.create(request(Some(phased_policy())), b"{}").unwrap();
    match state.change_phase("sb-1", "build", 0, Some("disk full".into())) {
        PhaseOutcome::Denied(reason) => assert_eq!(reason, "resource update failed: disk full"),
        other => panic!("unexpected {other:?}"),
    }
    assert_eq!(state.get("sb-1").unwrap().generation, 0);
    assert!(matches!(state.change_phase("sb-9", "build", 0, None), PhaseOutcome::NotFound));
}

#[test]
fn sandboxes_finish_and_are_removed_with_their_process() {
    let mut state = AppState::new();
    state.create(request(None), b"").unwrap();
    state.create(request(None), b"").unwrap();
    state.set_pid("sb-1", 41);
    state.set_pid("sb-2", 42);
    state.finish("sb-2", RunOutcome::Exited(3));
    assert_eq!(state.get("sb-2").unwrap().status, Status::Completed);
    assert_eq!(state.get("sb-2").unwrap().exit_code, Some(3));
    assert_eq!(state.remove("sb-1"), RemoveOutcome::Removed(Some(41)));
    assert_eq!(state.remove("sb-2"), RemoveOutcome::Removed(None));
    assert_eq!(state.remove("sb-2"), RemoveOutcome::NotFound);
}

#[test]
fn metrics_count_by_status() {
    let mut state = AppState::new();
    state.create(request(None), b"").unwrap();
    state.create(request(None), b"").unwrap();
    state.create(request(None), b"").unwrap();
    state.finish("sb-2", RunOutcome::Failed("boom".into()));
    state.finish("sb-3", RunOutcome::SetupFailed("no rootfs".into()));
    let body = state.metrics();
    assert!(body.contains("tinybox_sandboxes_total 3\n"));
    assert!(body.contains("tinybox_sandboxes_running 1\n"));
    assert!(body.contains("tinybox_sandboxes_completed 0\n"));
    assert!(body.contains("tinybox_sandboxes_failed 1\n"));
    assert!(body.contains("tinybox_sandboxes_setup_failed 1\n"));
    assert!(body.starts_with("# HELP tinybox_sandboxes_total Total sandboxes created\n"));
}

fn task_policy(path: &str) -> CapabilityDescriptor {
    CapabilityDescriptor {
        version: POLICY_VERSION,
        filesystem: vec![FsRule { path: path.into(), access: FsAccess::ReadWrite }],
        network: Vec::new(),
        resources: resources(1 << 30, 2.0, 256),
        phases: Vec::new(),
    }
}

fn task_request(path: &str, env: Vec<String>) -> TaskCreateRequest {
    TaskCreateRequest { workspace: "/home/me/project".into(), policy: task_policy(path), env, hostname: None }
}

#[test]
fn tasks_are_authorized_by_token_and_never_removed_as_sandboxes() {
    let mut state = AppState::new();
    let launch = state.create_task(task_request("/workspace/src", vec!["LANG=C".into()]), b"{}", Some(vec![1, 2])).unwrap();
    assert_eq!(launch.id, "task-1");
    assert_eq!(launch.token, "0102");
    assert_eq!(launch.config.volumes, vec!["/home/me/project:/workspace".to_string()]);
    assert_eq!(launch.config.command, vec!["/bin/sleep".to_string(), "2147483647".to_string()]);
    assert_eq!(state.get("task-1").unwrap().kind, Kind::Task);
    assert_eq!(state.get("task-1").unwrap().status, Status::Starting);
    assert_eq!(state.authorize_exec("task-1", Some("0102")).err(), Some(TaskDenial::NotRunning(Status::Starting)));
    state.set_keeper("task-1", 77, Some(12345));
    let target = state.authorize_exec("task-1", Some("0102")).unwrap();
    assert_eq!(target.keeper_pid, 77);
    assert_eq!(target.keeper_start_time, 12345);
    assert_eq!(target.base_env, vec!["LANG=C".to_string()]);
    assert_eq!(state.authorize_exec("task-1", Some("0103")).err(), Some(TaskDenial::Unauthorized));
    assert_eq!(state.authorize_exec("task-1", None).err(), Some(TaskDenial::Unauthorized));
    assert_eq!(state.authorize_exec("task-9", Some("0102")).err(), Some(TaskDenial::NotFound));
    assert_eq!(state.remove("task-1"), RemoveOutcome::Forbidden);
    assert_eq!(state.begin_remove_task("task-1", Some("0102")).err(), Some(TaskDenial::NoSupervisor));
    state.set_pid("task-1", 70);
    let (pid, cgroup) = state.begin_remove_task("task-1", Some("0102")).unwrap();
    assert_eq!(pid, 70);
    assert_eq!(cgroup, "/sys/fs/cgroup/tinybox-task-1");
    assert_eq!(state.get("task-1").unwrap().status, Status::Stopping);
    assert_eq!(state.finish_remove_task("task-1", Some("busy".into())).err().as_deref(), Some("task cleanup failed: busy"));
    assert_eq!(state.get("task-1").unwrap().status, Status::CleanupFailed);
    assert!(state.finish_remove_task("task-1", None).is_ok());
    assert!(state.get("task-1").is_none());
}

#[test]
fn stopped_task_stays_registered_and_refuses_tool_calls() {
    let mut state = AppState::new();
    state.create_task(task_request("/workspace", Vec::new()), b"{}", Some(vec![0xab])).unwrap();
    state.set_pid("task-1", 70);
    state.set_keeper("task-1", 77, Some(5));
    assert!(state.authorize_exec("task-1", Some("ab")).is_ok());
    assert_eq!(state.begin_remove_task("task-1", Some("ba")).err(), Some(TaskDenial::Unauthorized));
    let (pid, cgroup) = state.begin_remove_task("task-1", Some("ab")).unwrap();
    assert_eq!(pid, 70);
    assert_eq!(cgroup, "/sys/fs/cgroup/tinybox-task-1");
    assert!(state.finish_stop_task("task-1", None).is_ok());
    assert_eq!(state.get("task-1").unwrap().status, Status::Stopped);
    assert_eq!(state.get("task-1").unwrap().status.as_str(), "stopped");
    assert_eq!(state.authorize_exec("task-1", Some("ab")).err(), Some(TaskDenial::NotRunning(Status::Stopped)));
    // A stopped task can still be removed for good.
    state.begin_remove_task("task-1", Some("ab")).unwrap();
    assert!(state.finish_remove_task("task-1", None).is_ok());
    assert!(state.get("task-1").is_none());
}

#[test]
fn failed_stop_cleanup_is_reported() {
    let mut state = AppState::new();
    state.create_task(task_request("/workspace", Vec::new()), b"{}", Some(vec![1])).unwrap();
    state.set_pid("task-1", 70);
    state.begin_remove_task("task-1", Some("01")).unwrap();
    assert_eq!(state.finish_stop_task("task-1", Some("busy".into())).err().as_deref(), Some("task cleanup failed: busy"));
    assert_eq!(state.get("task-1").unwrap().status, Status::CleanupFailed);
    assert_eq!(state.get("task-1").unwrap().error.as_deref(), Some("task cleanup failed: busy"));
}

#[test]
fn task_requests_are_checked_before_they_get_a_number() {
    let mut state = AppState::new();
    assert!(matches!(
        state.create_task(task_request("/etc", Vec::new()), b"{}", Some(vec![1])),
        Err(TaskCreateError::FilesystemOutsideWorkspace)
    ));
    assert!(matches!(state.create_task(task_request("/tmp", vec!["SECRET=1".into()]), b"{}", Some(vec![1])), Err(TaskCreateError::Env(_))));
    let mut phased = task_request("/tmp", Vec::new());
    phased.policy = phased_policy();
    assert!(matches!(state.create_task(phased, b"{}", Some(vec![1])), Err(TaskCreateError::PhasesNotAllowed)));
    assert!(matches!(state.create_task(task_request("/tmp", Vec::new()), b"{}", None), Err(TaskCreateError::TokenUnavailable)));
    // The refused request for want of randomness used up number 1.
    let launch = state.create_task(task_request("/workspace", Vec::new()), b"{}", Some(vec![9])).unwrap();
    assert_eq!(launch.id, "task-2");
}
