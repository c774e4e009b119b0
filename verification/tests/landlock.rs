use tinybox::landlock::{access_of, add_baseline_rules, ruleset, READ_ACCESS, WRITE_ACCESS, ACCESS_EXECUTE};
use tinybox::policy::{FsAccess, FsRule};

#[test]
fn baseline_and_policy_rules() {
    let base = add_baseline_rules();
    let paths: Vec<&str> = base.iter().map(|r| r.path.as_str()).collect();
    assert_eq!(paths, vec!["/bin", "/sbin", "/usr", "/lib", "/lib64", "/dev", "/tmp", "/proc", "/sys"]);
    assert!(base.iter().all(|r| !r.required));
    assert_eq!(base[7].access, READ_ACCESS);
    let all = ruleset(&vec![FsRule { path: "/workspace".into(), access: FsAccess::ReadWrite }]);
    assert_eq!(all.len(), 10);
    assert!(all[9].required);
    assert_eq!(all[9].access, READ_ACCESS | WRITE_ACCESS);
    assert_eq!(access_of(FsAccess::ReadExecute), READ_ACCESS | ACCESS_EXECUTE);
    assert_eq!(READ_ACCESS, (1 << 2) | (1 << 3));
}
