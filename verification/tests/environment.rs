use tinybox::environment::{
    base_environment, check_state_path, mount_spec, orphan_marker, profile_environment, source_label, state_dir,
    validate_target, EnvironmentRequest, TargetError,
};

#[test]
fn volume_targets_must_be_normalized_and_unmanaged() {
    assert_eq!(validate_target("/data"), Ok(()));
    assert_eq!(validate_target("data"), Err(TargetError::NotNormalized));
    assert_eq!(validate_target("/"), Err(TargetError::NotNormalized));
    assert_eq!(validate_target("/a/../b"), Err(TargetError::NotNormalized));
    assert_eq!(validate_target("/workspace"), Err(TargetError::Overlap));
    assert_eq!(validate_target("/home/agent/.cache"), Err(TargetError::Overlap));
}

#[test]
fn state_directories_live_under_the_state_root() {
    assert_eq!(state_dir("task-1"), "/var/lib/tinybox/tasks/task-1");
    assert!(check_state_path("/var/lib/tinybox/tasks/task-1"));
    assert!(!check_state_path("/var/lib/tinybox/tasks"));
    assert!(!check_state_path("/var/lib/tinybox/other/task-1"));
}

#[test]
fn only_task_directories_have_an_orphan_marker() {
    assert_eq!(orphan_marker("task-7").as_deref(), Some("/sys/fs/cgroup/tinybox-task-7"));
    assert_eq!(orphan_marker("sb-7"), None);
}

#[test]
fn mount_specs() {
    assert_eq!(mount_spec("/src", "/dst", false), "/src:/dst");
    assert_eq!(mount_spec("/src", "/dst", true), "/src:/dst:ro");
}

#[test]
fn task_environment_order() {
    let env = base_environment(&vec!["TERM=xterm".to_string()], &vec!["PIP_CACHE_DIR=/c".to_string()]);
    assert_eq!(
        env,
        vec![
            "HOME=/home/agent",
            "XDG_CACHE_HOME=/home/agent/.cache",
            "LANG=C.UTF-8",
            "PATH=/usr/local/sbin:/usr/local/bin:/usr/sbin:/usr/bin:/sbin:/bin",
            "TERM=xterm",
            "PIP_CACHE_DIR=/c",
        ]
    );
}

#[test]
fn profiles() {
    assert_eq!(
        profile_environment("rust", "/opt/rust/bin").unwrap(),
        vec!["PATH=/opt/rust/bin:/usr/bin:/bin", "CARGO_HOME=/home/agent/.cache/cargo"]
    );
    assert_eq!(profile_environment("host-basic", "").unwrap(), Vec::<String>::new());
    assert_eq!(profile_environment("cobol", "").unwrap_err().name, "cobol");
}

#[test]
fn source_labels() {
    assert_eq!(source_label(&EnvironmentRequest::Host), "host");
    assert_eq!(source_label(&EnvironmentRequest::Rootfs { path: "/r".to_string() }), "rootfs");
    assert_eq!(source_label(&EnvironmentRequest::Profile { name: "node".to_string() }), "profile:node");
}

use tinybox::environment::{
    assemble, passwd_home, pick_latest, pick_toolchain, profile_paths, profile_tool, EnvironmentVolume,
};
use tinybox::policy::FsAccess;

fn volume(source: &str, target: &str, read_only: bool) -> EnvironmentVolume {
    EnvironmentVolume { source: source.to_string(), target: target.to_string(), read_only }
}

#[test]
fn assembled_environment() {
    let (manifest, prepared) = assemble(
        "task-9",
        "profile:node".to_string(),
        "/".to_string(),
        "/home/me/project",
        &vec![volume("/data", "/data", true), volume("/src", "/opt/src", false)],
        &vec!["TERM=xterm".to_string()],
        &vec!["npm_config_cache=/home/agent/.cache/npm".to_string()],
        &vec!["/usr/lib/node/bin".to_string()],
    )
    .unwrap();
    assert_eq!(manifest.version, 1);
    assert_eq!(manifest.source, "profile:node");
    assert_eq!(manifest.base_rootfs, "/");
    let mappings: Vec<(String, String, String)> =
        manifest.mappings.iter().map(|m| (m.source.clone(), m.target.clone(), m.mode.clone())).collect();
    assert_eq!(
        mappings,
        vec![
            ("/home/me/project".to_string(), "/workspace".to_string(), "direct".to_string()),
            ("/var/lib/tinybox/tasks/task-9/home".to_string(), "/home/agent".to_string(), "private_write".to_string()),
            ("/data".to_string(), "/data".to_string(), "read_only".to_string()),
            ("/src".to_string(), "/opt/src".to_string(), "direct".to_string()),
            ("/usr/lib/node/bin".to_string(), "/usr/lib/node/bin".to_string(), "read_only".to_string()),
        ]
    );
    assert_eq!(prepared.state_dir, "/var/lib/tinybox/tasks/task-9");
    assert_eq!(prepared.rootfs_work_dir, "/var/lib/tinybox/tasks/task-9/rootfs");
    assert_eq!(
        prepared.volumes,
        vec![
            "/home/me/project:/workspace",
            "/var/lib/tinybox/tasks/task-9/home:/home/agent",
            "/data:/data:ro",
            "/src:/opt/src",
        ]
    );
    assert_eq!(prepared.env.len(), 6);
    assert_eq!(prepared.env[4], "TERM=xterm");
    assert_eq!(
        prepared.filesystem_paths,
        vec![
            ("/workspace".to_string(), FsAccess::ReadWriteExecute),
            ("/home/agent".to_string(), FsAccess::ReadWriteExecute),
            ("/usr/lib/node/bin".to_string(), FsAccess::ReadExecute),
        ]
    );
}

#[test]
fn assembly_refuses_the_first_bad_target() {
    let refused = assemble(
        "task-1",
        "host".to_string(),
        "/".to_string(),
        "/w",
        &vec![volume("/a", "/ok", false), volume("/b", "/workspace", false), volume("/c", "relative", false)],
        &vec![],
        &vec![],
        &vec![],
    );
    assert_eq!(refused.err(), Some(TargetError::Overlap));
}

#[test]
fn profile_tools_and_paths() {
    assert_eq!(profile_tool("rust"), Some(("rustc".to_string(), 2)));
    assert_eq!(profile_tool("node"), Some(("node".to_string(), 1)));
    assert_eq!(profile_tool("python"), None);
    assert_eq!(profile_paths("rust", "/b", "/i"), vec!["/b", "/i"]);
    assert_eq!(profile_paths("node", "/b", "/i"), vec!["/b", "/i", "/etc/ssl"]);
    assert!(profile_paths("python", "/b", "/i").is_empty());
}

#[test]
fn home_directories_from_passwd() {
    let passwd = "root:x:0:0:root:/root:/bin/bash\nalice:x:1000:1000::/home/alice:/bin/sh\nbad:line\nalice:x:1:1::/elsewhere:/bin/sh\n";
    assert_eq!(passwd_home(passwd, "alice").as_deref(), Some("/home/alice"));
    assert_eq!(passwd_home(passwd, "root").as_deref(), Some("/root"));
    assert_eq!(passwd_home(passwd, "bad"), None);
    assert_eq!(passwd_home(passwd, "bob"), None);
}

#[test]
fn stable_toolchains_are_preferred() {
    let entries = vec![
        (false, "nightly-x86_64".to_string()),
        (true, "stable-x86_64".to_string()),
        (true, "stable-aarch64".to_string()),
    ];
    assert_eq!(pick_toolchain(&entries), Some(2));
    assert_eq!(pick_toolchain(&vec![(false, "b".to_string()), (false, "a".to_string())]), Some(1));
    assert_eq!(pick_toolchain(&vec![]), None);
}

#[test]
fn newest_node_version_is_picked() {
    let names = vec!["v18.1.0".to_string(), "v20.3.1".to_string(), "v20.10.0".to_string()];
    assert_eq!(pick_latest(&names), Some(1));
    assert_eq!(pick_latest(&vec![]), None);
}
