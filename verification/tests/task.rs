use tinybox::sandbox::WaitOutcome;
use tinybox::task::{
    append_bounded, candidates, default_timeout_ms, exit_code, is_populated, member_of_cgroup, merge_environment,
    parse_start_time, pick_program, resolve_program, response_exit_code, validate_env, validate_request, validate_task_cgroup_path,
    CgroupPathError, ExecRequest, StatError, MAX_OUTPUT_BYTES,
};

#[test]
fn rejects_unsafe_request_fields() {
    let mut request = ExecRequest {
        command: vec!["true".into()],
        cwd: Some("../outside".into()),
        env: Vec::new(),
        timeout_ms: 100,
    };
    assert!(validate_request(&request).is_err());
    request.cwd = Some("/workspace".into());
    request.env = vec!["BAD-NAME=value".into()];
    assert!(validate_request(&request).is_err());
    request.env = vec!["GOOD_NAME=value".into()];
    assert!(validate_request(&request).is_ok());
}

#[test]
fn environment_delta_overrides_base() {
    let merged = merge_environment(&vec!["PATH=/bin".into(), "LANG=C".into()], &vec!["LANG=en_US.UTF-8".into()]).unwrap();
    assert!(merged.contains(&"PATH=/bin".to_string()));
    assert!(merged.contains(&"LANG=en_US.UTF-8".to_string()));
    assert!(!merged.contains(&"LANG=C".to_string()));
}

#[test]
fn resolves_program_from_task_environment() {
    let directory = tempfile::tempdir().unwrap();
    let _tool = tempfile::Builder::new().prefix("tool").rand_bytes(0).tempfile_in(directory.path()).unwrap();
    let env = vec![format!("PATH={}", directory.path().display())];
    assert_eq!(
        resolve_program("tool", &env).unwrap(),
        directory.path().join("tool").to_string_lossy()
    );
    assert!(resolve_program("missing", &env).is_err());
}

#[test]
fn merged_environment_is_sorted_by_name_and_validated() {
    let merged = merge_environment(&vec!["ZED=1".into(), "A=1".into(), "M=x".into()], &vec!["A=2".into()]).unwrap();
    assert_eq!(merged, vec!["A=2".to_string(), "M=x".to_string(), "ZED=1".to_string()]);
    assert!(merge_environment(&vec!["1BAD=x".into()], &Vec::new()).is_err());
    assert!(merge_environment(&Vec::new(), &vec!["NOEQUALS".into()]).is_err());
}

#[test]
fn request_limits_and_environment_names() {
    let mut request = ExecRequest { command: Vec::new(), cwd: None, env: Vec::new(), timeout_ms: default_timeout_ms() };
    assert!(validate_request(&request).is_err());
    request.command = vec!["ls".into()];
    assert!(validate_request(&request).is_ok());
    request.timeout_ms = 0;
    assert!(validate_request(&request).is_err());
    request.timeout_ms = 3_600_001;
    assert!(validate_request(&request).is_err());
    request.timeout_ms = 3_600_000;
    request.cwd = Some("/a/../b".into());
    assert!(validate_request(&request).is_err());
    assert_eq!(default_timeout_ms(), 120_000);
    assert!(validate_env("_X1=").is_ok());
    assert!(validate_env("1X=").is_err());
    assert!(validate_env("=v").is_err());
    assert_eq!(validate_env("A B=1").unwrap_err().message(), "invalid environment variable name: A B");
}

#[test]
fn program_candidates_follow_the_last_path_entry() {
    let env = vec!["PATH=/first".to_string(), "PATH=/a::/b/".to_string()];
    assert_eq!(candidates("tool", &env), vec!["/a/tool".to_string(), "/b/tool".to_string()]);
    assert_eq!(candidates("tool", &Vec::new()), vec!["/usr/bin/tool".to_string(), "/bin/tool".to_string()]);
    assert_eq!(resolve_program("./x/y", &env).unwrap(), "./x/y");
}

#[test]
fn task_cgroup_paths_are_recognized() {
    assert_eq!(validate_task_cgroup_path("/sys/fs/cgroup/tinybox-task-3").unwrap(), "tinybox-task-3");
    assert_eq!(validate_task_cgroup_path("/sys/fs/cgroup/tinybox-sb-3"), Err(CgroupPathError::Unrecognized));
    assert_eq!(validate_task_cgroup_path("/tmp/tinybox-task-3"), Err(CgroupPathError::Unrecognized));
    assert_eq!(validate_task_cgroup_path("/sys/fs/cgroup/.."), Err(CgroupPathError::Invalid));
    assert_eq!(validate_task_cgroup_path("/"), Err(CgroupPathError::Invalid));
}

#[test]
fn process_start_time_is_the_twentieth_field_after_the_name() {
    let stat = "1234 (my (odd) cmd) S 1 2 3 4 5 6 7 8 9 10 11 12 13 14 15 16 17 18 987654 20 21\n";
    assert_eq!(parse_start_time(stat), Ok(987654));
    assert_eq!(parse_start_time("1234 cmd S"), Err(StatError::MissingCommTerminator));
    assert_eq!(parse_start_time("1 (c) S 1 2"), Err(StatError::MissingStartTime));
    let bad = "1 (c) S 1 2 3 4 5 6 7 8 9 10 11 12 13 14 15 16 17 18 x";
    assert_eq!(parse_start_time(bad), Err(StatError::InvalidStartTime));
}

#[test]
fn cgroup_membership_and_population() {
    assert!(member_of_cgroup("0::/tinybox-task-1\n", "tinybox-task-1"));
    assert!(!member_of_cgroup("0::/user.slice\n", "tinybox-task-1"));
    assert!(is_populated("populated 1\nfrozen 0\n"));
    assert!(!is_populated("populated 0\nfrozen 0\n"));
    assert!(is_populated("populated 1\r\n"));
}

#[test]
fn exit_codes_and_bounded_output() {
    assert_eq!(exit_code(WaitOutcome::Exited(3)), 3);
    assert_eq!(exit_code(WaitOutcome::Signaled(9)), 137);
    assert_eq!(exit_code(WaitOutcome::Other), 125);
    assert_eq!(response_exit_code(true, WaitOutcome::Exited(0)), 124);
    let mut out = vec![0u8; MAX_OUTPUT_BYTES - 2];
    assert!(append_bounded(&mut out, &[1, 2, 3]));
    assert_eq!(out.len(), MAX_OUTPUT_BYTES);
    assert!(!append_bounded(&mut out, &[]));
    assert!(append_bounded(&mut out, &[9]));
    assert_eq!(out.len(), MAX_OUTPUT_BYTES);
}

#[test]
fn the_first_regular_file_in_path_order_is_picked() {
    assert_eq!(pick_program(&vec![false, true, true]), Some(1));
    assert_eq!(pick_program(&vec![true]), Some(0));
    assert_eq!(pick_program(&vec![false, false]), None);
    assert_eq!(pick_program(&Vec::new()), None);
}

#[test]
fn earlier_path_entries_win() {
    let first = tempfile::tempdir().unwrap();
    let second = tempfile::tempdir().unwrap();
    let _a = tempfile::Builder::new().prefix("tool").rand_bytes(0).tempfile_in(first.path()).unwrap();
    let _b = tempfile::Builder::new().prefix("tool").rand_bytes(0).tempfile_in(second.path()).unwrap();
    let env = vec![format!("PATH={}:{}", first.path().display(), second.path().display())];
    assert_eq!(resolve_program("tool", &env).unwrap(), first.path().join("tool").to_string_lossy());
    // A directory of that name is no program.
    let third = tempfile::tempdir().unwrap();
    let _dir = tempfile::Builder::new().prefix("tool").rand_bytes(0).tempdir_in(third.path()).unwrap();
    let env = vec![format!("PATH={}:{}", third.path().display(), second.path().display())];
    assert_eq!(resolve_program("tool", &env).unwrap(), second.path().join("tool").to_string_lossy());
}
