use tinybox::doctor::{any_failed, host_report, kernel_at_least, HostFacts};

#[test]
fn parses_kernel_baseline() {
    assert!(kernel_at_least("5.10.0-generic", 5, 10));
    assert!(kernel_at_least("6.8.12", 5, 10));
    assert!(!kernel_at_least("5.4.0", 5, 10));
    assert!(!kernel_at_least("invalid", 5, 10));
}

#[test]
fn kernel_numbers_skip_non_numeric_pieces() {
    assert!(kernel_at_least("rc-5.10", 5, 10));
    assert!(!kernel_at_least("5", 5, 10));
    assert!(kernel_at_least("5-11", 5, 10));
}

#[test]
fn host_report_passes_a_ready_host_and_warns_without_root() {
    let facts = HostFacts {
        os: "linux".into(),
        is_linux: true,
        release: "6.1.0".into(),
        controllers: "cpuset cpu io memory pids\n".into(),
        filesystems: "nodev\tproc\nnodev\toverlay\n".into(),
        landlock_abi: Some(3),
        euid: 1000,
    };
    let checks = host_report(&facts);
    let statuses: Vec<&str> = checks.iter().map(|c| c.status.as_str()).collect();
    assert_eq!(statuses, vec!["pass", "pass", "pass", "pass", "pass", "warn"]);
    assert_eq!(checks[2].detail, "cpuset cpu io memory pids");
    assert_eq!(checks[4].detail, "ABI 3");
    assert!(!any_failed(&checks));
}

#[test]
fn host_report_fails_missing_requirements() {
    let facts = HostFacts {
        os: "linux".into(),
        is_linux: true,
        release: "4.19.0".into(),
        controllers: "cpu memory".into(),
        filesystems: String::new(),
        landlock_abi: None,
        euid: 0,
    };
    let checks = host_report(&facts);
    let statuses: Vec<&str> = checks.iter().map(|c| c.status.as_str()).collect();
    assert_eq!(statuses, vec!["pass", "fail", "fail", "fail", "fail", "pass"]);
    assert_eq!(checks[4].detail, "unavailable");
    assert!(any_failed(&checks));
}
