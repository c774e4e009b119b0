use tinybox::rootfs::{
    check_rootfs, check_volume_target, parse_volume, RootfsError, MountPoint, RootfsConfig, SetupStep, VolumeTargetError, MS_BIND, MS_NODEV, MS_NOEXEC,
    MS_NOSUID, MS_RDONLY,
};

#[test]
fn test_rootfs_config_new_nonexistent() {
    let result = RootfsConfig::new("/nonexistent/path".into(), false, "/tmp", 1);
    assert!(result.is_err());
}

#[test]
fn test_rootfs_config_new_file() {
    let result = RootfsConfig::new("/etc/passwd".into(), false, "/tmp", 1);
    assert!(result.is_err());
}

#[test]
fn rejects_invalid_volume_specs_before_mounting() {
    assert!(parse_volume("missing-target").is_err());
    assert!(parse_volume("/host:relative").is_ok());
    assert!(parse_volume("/host:/target:rw").is_err());
}

#[test]
fn rootfs_paths_live_under_the_work_dir() {
    let config = RootfsConfig::new("/".into(), true, "/tmp", 42).unwrap();
    assert_eq!(config.work_dir, "/tmp/tinybox-42");
    assert_eq!(config.merged_path(), "/tmp/tinybox-42/merged");
    assert_eq!(
        config.overlay_options(),
        "lowerdir=/,upperdir=/tmp/tinybox-42/upper,workdir=/tmp/tinybox-42/work"
    );
    let other = RootfsConfig::with_work_dir("/".into(), false, "/w/".into()).unwrap();
    assert_eq!(other.merged_path(), "/w/merged");
}

#[test]
fn volume_specs_and_targets() {
    assert_eq!(parse_volume("/a:/b:ro").unwrap(), ("/a".to_string(), "/b".to_string(), true));
    assert_eq!(check_volume_target("relative").err(), Some(VolumeTargetError::NotAbsolute));
    assert_eq!(check_volume_target("/").err(), Some(VolumeTargetError::OverRoot));
    assert_eq!(check_volume_target("/a/../b").err(), Some(VolumeTargetError::NotNormalized));
    assert_eq!(check_volume_target("/a/./b//c").unwrap().len(), 3);
}

#[test]
fn special_filesystems_in_order() {
    let config = RootfsConfig { rootfs_path: "/r".to_string(), work_dir: "/tmp/tinybox-7".to_string(), readonly: false };
    let steps = config.special_fs();
    assert_eq!(steps.len(), 13);
    match &steps[0] {
        SetupStep::Mount { point, target, source, fstype, flags, data } => {
            assert_eq!(*point, MountPoint::Directory);
            assert_eq!(target, "/tmp/tinybox-7/merged/proc");
            assert_eq!(source, "proc");
            assert_eq!(fstype.as_deref(), Some("proc"));
            assert_eq!(*flags, MS_NOSUID | MS_NOEXEC);
            assert!(data.is_none());
        }
        other => panic!("unexpected step {other:?}"),
    }
    match &steps[2] {
        SetupStep::Mount { point, target, source, fstype, flags, .. } => {
            assert_eq!(*point, MountPoint::File);
            assert_eq!(target, "/tmp/tinybox-7/merged/dev/null");
            assert_eq!(source, "/dev/null");
            assert!(fstype.is_none());
            assert_eq!(*flags, MS_BIND);
        }
        other => panic!("unexpected step {other:?}"),
    }
    match &steps[9] {
        SetupStep::Symlink { to, link } => {
            assert_eq!(to, "pts/ptmx");
            assert_eq!(link, "/tmp/tinybox-7/merged/dev/ptmx");
        }
        other => panic!("unexpected step {other:?}"),
    }
    match &steps[12] {
        SetupStep::Mount { target, flags, data, .. } => {
            assert_eq!(target, "/tmp/tinybox-7/merged/sys");
            assert_eq!(*flags, MS_NOSUID | MS_NODEV | MS_RDONLY);
            assert!(data.is_none());
        }
        other => panic!("unexpected step {other:?}"),
    }
}

#[test]
fn rootfs_answers_decide_the_outcome() {
    assert!(matches!(check_rootfs("/r".into(), false, false), Err(RootfsError::NotFound(p)) if p == "/r"));
    assert!(matches!(check_rootfs("/r".into(), true, false), Err(RootfsError::NotDirectory(p)) if p == "/r"));
    assert_eq!(check_rootfs("/r".into(), true, true).unwrap(), "/r");
    assert!(matches!(RootfsConfig::new("/etc/passwd".into(), false, "/tmp", 1), Err(RootfsError::NotDirectory(_))));
    assert!(matches!(RootfsConfig::new("/nonexistent/path".into(), false, "/tmp", 1), Err(RootfsError::NotFound(_))));
    let dir = tempfile::tempdir().unwrap();
    let path = dir.path().to_str().unwrap().to_string();
    let config = RootfsConfig::with_work_dir(path.clone(), true, "/tmp/w".into()).unwrap();
    assert_eq!(config.rootfs_path, path);
    assert!(config.readonly);
}
