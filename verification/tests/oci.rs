use tinybox::oci::{
    load_bundle, parse_namespaces, rootfs_path, NamespaceError, NamespaceType, OciConfig, OciError, OciLinux,
    OciProcess, OciRoot, OciUser,
};

fn config(args: Vec<&str>, env: Vec<&str>, root: Option<(&str, bool)>, namespaces: Option<Vec<&str>>) -> OciConfig {
    OciConfig {
        process: Some(OciProcess {
            args: args.into_iter().map(str::to_string).collect(),
            env: env.into_iter().map(str::to_string).collect(),
            cwd: None,
            user: None,
        }),
        root: root.map(|(path, readonly)| OciRoot { path: path.to_string(), readonly }),
        linux: namespaces.map(|names| OciLinux { namespaces: names.into_iter().map(str::to_string).collect() }),
    }
}

#[test]
fn loads_relative_rootfs_and_process() {
    let bundle = load_bundle("/bundles/b", config(vec!["sh"], vec!["A=B"], Some(("rootfs", false)), None), true).unwrap();
    assert_eq!(bundle.command, vec!["sh"]);
    assert_eq!(bundle.env, vec!["A=B"]);
    assert_eq!(bundle.rootfs, "/bundles/b/rootfs");
    assert!(!bundle.root_readonly);
    assert_eq!(bundle.uid, 0);
    assert_eq!(bundle.gid, 0);
    assert!(bundle.namespaces.is_none());
}

#[test]
fn honors_readonly_cwd_user_and_namespaces() {
    let mut parsed = config(vec!["sh"], vec![], Some(("rootfs", true)), Some(vec!["pid", "mount"]));
    if let Some(process) = parsed.process.as_mut() {
        process.cwd = Some("/work".to_string());
        process.user = Some(OciUser { uid: 1000, gid: 1000 });
    }
    let bundle = load_bundle("/b", parsed, true).unwrap();
    assert!(bundle.root_readonly);
    assert_eq!(bundle.cwd.as_deref(), Some("/work"));
    assert_eq!(bundle.uid, 1000);
    assert_eq!(bundle.gid, 1000);
    assert_eq!(bundle.namespaces, Some(vec![NamespaceType::Pid, NamespaceType::Mount]));
}

#[test]
fn rejects_unknown_and_user_namespaces() {
    let user = load_bundle("/b", config(vec!["sh"], vec![], Some(("rootfs", false)), Some(vec!["user"])), true);
    assert_eq!(user.unwrap_err(), OciError::Namespace(0, NamespaceError::UserUnsupported));
    let future = load_bundle("/b", config(vec!["sh"], vec![], Some(("rootfs", false)), Some(vec!["pid", "future"])), true);
    assert_eq!(future.unwrap_err(), OciError::Namespace(1, NamespaceError::Unknown));
}

#[test]
fn bundle_faults_come_in_order() {
    let mut missing = config(vec!["sh"], vec![], Some(("rootfs", false)), None);
    missing.process = None;
    assert_eq!(load_bundle("/b", missing, true).unwrap_err(), OciError::MissingProcess);
    assert_eq!(load_bundle("/b", config(vec![], vec![], Some(("r", false)), None), true).unwrap_err(), OciError::EmptyArgs);
    assert_eq!(load_bundle("/b", config(vec!["sh"], vec![], None, None), true).unwrap_err(), OciError::MissingRoot);
    assert_eq!(
        load_bundle("/b", config(vec!["sh"], vec![], Some(("r", false)), None), false).unwrap_err(),
        OciError::RootfsNotDirectory
    );
}

#[test]
fn empty_namespace_list_means_all() {
    let bundle = load_bundle("/b", config(vec!["sh"], vec![], Some(("/abs", false)), Some(vec![])), true).unwrap();
    assert!(bundle.namespaces.is_none());
    assert_eq!(bundle.rootfs, "/abs");
}

#[test]
fn rootfs_paths_and_namespace_lists() {
    assert_eq!(rootfs_path("/b", "rootfs"), "/b/rootfs");
    assert_eq!(rootfs_path("/b", "/elsewhere"), "/elsewhere");
    let names = vec!["uts".to_string(), "ipc".to_string(), "network".to_string(), "cgroup".to_string()];
    assert_eq!(
        parse_namespaces(&names).unwrap(),
        vec![NamespaceType::Uts, NamespaceType::Ipc, NamespaceType::Network, NamespaceType::Cgroup]
    );
}

#[test]
fn bundle_errors_name_what_was_refused() {
    let names = vec!["pid".to_string(), "future".to_string()];
    assert_eq!(
        OciError::Namespace(1, NamespaceError::Unknown).message("/b/r", &names),
        "unsupported OCI namespace type: future"
    );
    assert_eq!(
        OciError::Namespace(0, NamespaceError::UserUnsupported).message("/b/r", &names),
        "OCI user namespace is unsupported until uid/gid mappings are implemented"
    );
    assert_eq!(OciError::RootfsNotDirectory.message("/b/r", &names), "OCI rootfs is not a directory: /b/r");
}
