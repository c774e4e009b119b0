use seccompiler::{SeccompCmpArgLen, SeccompCmpOp, SeccompCondition, SeccompRule};
use tinybox::seccomp::{
    build_rules, cap_mask_words, ALLOWED_SYSCALLS, CLONE_NEWNAMESPACES_MASK, DANGEROUS_CAPS, DANGEROUS_CAP_MASK, SYS_CLONE,
};

#[test]
fn test_clone_rule_blocks_namespace_flags() {
    let rules = build_rules().unwrap();
    let clone_rules = rules.get(&SYS_CLONE).expect("clone must be present in the allow-list");
    assert!(!clone_rules.is_empty(), "clone must have a flag-condition rule, not an unconditional allow");
}

#[test]
fn test_escape_syscalls_excluded() {
    let rules = build_rules().unwrap();
    // open_by_handle_at, process_vm_readv, process_vm_writev, perf_event_open,
    // ioprio_set, mbind, set_mempolicy, migrate_pages, move_pages
    let excluded: [i64; 9] = [304, 310, 311, 298, 251, 237, 238, 256, 279];
    for sys in excluded {
        assert!(!rules.contains_key(&sys), "syscall {sys} must be excluded from the allow-list");
    }
}

#[test]
fn allow_list_is_registered_without_conditions() {
    let rules = build_rules().unwrap();
    assert_eq!(rules.len(), ALLOWED_SYSCALLS.len() + 1);
    for sys in ALLOWED_SYSCALLS {
        assert!(rules[&sys].is_empty());
    }
    assert!(rules.contains_key(&0));
    assert!(!rules.contains_key(&169));
}

#[test]
fn dangerous_capabilities_mask() {
    let mut mask = 0u64;
    for cap in DANGEROUS_CAPS {
        mask |= 1u64 << cap;
    }
    assert_eq!(mask, DANGEROUS_CAP_MASK);
    assert_eq!(cap_mask_words(), ((mask & 0xFFFF_FFFF) as u32, (mask >> 32) as u32));
}

#[test]
fn test_seccomp_filter_creation() {
    let filter = seccompiler::SeccompFilter::new(
        build_rules().unwrap(),
        seccompiler::SeccompAction::Trap,
        seccompiler::SeccompAction::Allow,
        seccompiler::TargetArch::x86_64,
    );
    assert!(filter.is_ok());
}

#[test]
fn clone_rule_masks_every_namespace_flag() {
    assert_eq!(CLONE_NEWNAMESPACES_MASK, 0x7E02_0000);
    let rules = build_rules().unwrap();
    let expected = SeccompRule::new(vec![SeccompCondition::new(
        0,
        SeccompCmpArgLen::Qword,
        SeccompCmpOp::MaskedEq(0x7E02_0000),
        0,
    )
    .unwrap()])
    .unwrap();
    assert_eq!(rules[&SYS_CLONE], vec![expected]);
}
