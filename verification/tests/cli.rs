use tinybox::cli::{check_policy_flags, check_static_policy, default_alias, run_limits, RunError};
use tinybox::policy::{CapabilityDescriptor, PhasePolicy, ResourcePolicy};

fn ceiling() -> ResourcePolicy {
    ResourcePolicy { memory_bytes: 1024, cpus_bits: 2.0f64.to_bits(), pids: 32 }
}

fn descriptor(phases: Vec<PhasePolicy>) -> CapabilityDescriptor {
    CapabilityDescriptor { version: 1, filesystem: vec![], network: vec![], resources: ceiling(), phases }
}

#[test]
fn dangerous_mode_is_refused_with_a_policy() {
    assert_eq!(check_policy_flags(true, true), Err(RunError::DangerousWithPolicy));
    assert_eq!(check_policy_flags(true, false), Ok(()));
    assert_eq!(check_policy_flags(false, true), Ok(()));
}

#[test]
fn run_takes_static_policies_only() {
    assert_eq!(check_static_policy(&None), Ok(()));
    assert_eq!(check_static_policy(&Some(descriptor(vec![]))), Ok(()));
    let phase = PhasePolicy { name: "build".to_string(), network: vec![], resources: ceiling(), next: vec![] };
    assert_eq!(check_static_policy(&Some(descriptor(vec![phase]))), Err(RunError::PhasesNeedDaemon));
}

#[test]
fn limits_without_policy_are_the_flags() {
    assert_eq!(run_limits(None, Some(5), None, Some(7)), Ok((Some(5), None, Some(7))));
}

#[test]
fn absent_flags_take_the_ceiling() {
    assert_eq!(run_limits(Some(ceiling()), None, None, None), Ok((Some(1024), Some(2.0f64.to_bits()), Some(32))));
    assert_eq!(
        run_limits(Some(ceiling()), Some(512), Some(1.5f64.to_bits()), None),
        Ok((Some(512), Some(1.5f64.to_bits()), Some(32)))
    );
}

#[test]
fn flags_over_the_ceiling_are_refused_in_order() {
    assert_eq!(run_limits(Some(ceiling()), Some(2048), Some(4.0f64.to_bits()), Some(64)), Err(RunError::MemoryOverCeiling));
    assert_eq!(run_limits(Some(ceiling()), None, Some(4.0f64.to_bits()), Some(64)), Err(RunError::CpusOverCeiling));
    assert_eq!(run_limits(Some(ceiling()), None, None, Some(64)), Err(RunError::PidsOverCeiling));
}

#[test]
fn negative_or_nan_cpus_do_not_exceed_the_ceiling() {
    assert!(run_limits(Some(ceiling()), None, Some((-8.0f64).to_bits()), None).is_ok());
    assert!(run_limits(Some(ceiling()), None, Some(f64::NAN.to_bits()), None).is_ok());
}

#[test]
fn pulled_images_are_named_after_their_repository() {
    assert_eq!(default_alias("library/alpine"), "alpine");
    assert_eq!(default_alias("ghcr.io/org/tool"), "tool");
    assert_eq!(default_alias("plain"), "plain");
}
