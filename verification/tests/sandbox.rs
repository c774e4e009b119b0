use tinybox::oci::NamespaceType;
use tinybox::sandbox::{
    check_config, default_cgroup_name, effective_environment, exit_code_from_status, namespace_flags, validate_namespaces,
    SandboxConfig, SandboxError, SetupError, WaitOutcome,
};

fn config(command: Vec<String>) -> SandboxConfig {
    SandboxConfig {
        cgroup_name: None,
        command,
        hostname: None,
        rootfs: None,
        root_readonly: false,
        env: Vec::new(),
        proxy: None,
        volumes: Vec::new(),
        memory: None,
        cpus_bits: None,
        cpu_quota: None,
        cpu_period: None,
        pids_limit: None,
        dangerous: false,
        filesystem_policy: None,
        network_policy: None,
        namespaces: None,
        cwd: None,
        uid: 0,
        gid: 0,
    }
}

#[test]
fn test_exit_code_exited() {
    assert_eq!(exit_code_from_status(WaitOutcome::Exited(0)), 0);
    assert_eq!(exit_code_from_status(WaitOutcome::Exited(42)), 42);
}

#[test]
fn test_exit_code_signaled() {
    assert_eq!(exit_code_from_status(WaitOutcome::Signaled(9)), 128 + 9);
}

#[test]
fn test_empty_command() {
    let config = config(vec![]);
    assert!(check_config(&config).is_err());
}

#[test]
fn explicit_namespaces_require_mount_namespace() {
    let mut config = config(vec!["true".into()]);
    config.namespaces = Some(vec![NamespaceType::Pid]);
    assert!(validate_namespaces(&config).is_err());
}

#[test]
fn volumes_require_isolated_rootfs() {
    let mut config = config(vec!["true".into()]);
    config.volumes = vec!["/host:/sandbox".into()];
    assert!(validate_namespaces(&config).is_err());
}

#[test]
fn configuration_checks_come_in_order() {
    let mut c = config(vec!["a\0b".into()]);
    assert_eq!(check_config(&c), Err(SandboxError::NulInArgument));
    c.volumes = vec!["/h:/s".into()];
    assert_eq!(check_config(&c), Err(SandboxError::VolumesNeedRootfs));
    c.volumes.clear();
    c.command = vec!["true".into()];
    assert_eq!(check_config(&c), Ok(()));
    assert_eq!(exit_code_from_status(WaitOutcome::Signaled(99)), 128);
    assert_eq!(exit_code_from_status(WaitOutcome::Other), 1);
}

#[test]
fn namespaces_and_environment() {
    assert_eq!(namespace_flags(&None), 0x2000_0000 | 0x0002_0000 | 0x0400_0000 | 0x4000_0000);
    assert_eq!(namespace_flags(&Some(vec![NamespaceType::Ipc])), 0x0800_0000);
    let mut c = config(vec!["true".into()]);
    c.env = vec!["A=1".into()];
    assert_eq!(effective_environment(&c, false), vec!["A=1".to_string()]);
    let env = effective_environment(&c, true);
    assert_eq!(env.len(), 5);
    assert_eq!(env[1], "HTTP_PROXY=http://127.0.0.1:18080");
    assert_eq!(env[4], "NO_PROXY=127.0.0.1,localhost");
    assert_eq!(default_cgroup_name(77), "tinybox-77");
    assert_eq!(SetupError("boom".into()).message(), "sandbox setup failed: boom");
}
