use tinybox::policy::{
    hash_canonical, CapabilityDescriptor, FsAccess, FsRule, NetworkRule, PhasePolicy, PolicyError, ResourcePolicy,
    POLICY_VERSION,
};

fn offline_policy() -> CapabilityDescriptor {
    CapabilityDescriptor {
        version: POLICY_VERSION,
        filesystem: Vec::new(),
        network: Vec::new(),
        resources: ResourcePolicy { memory_bytes: 512 * 1024 * 1024, cpus_bits: 1.0f64.to_bits(), pids: 50 },
        phases: Vec::new(),
    }
}

const CANONICAL: &[u8] = br#"{"version":1,"filesystem":[],"network":[],"resources":{"memory_bytes":536870912,"cpus":1.0,"pids":50},"phases":[]}"#;

#[test]
fn stable_hash_for_same_policy() {
    let first = offline_policy().compile(CANONICAL).unwrap().hash;
    let second = offline_policy().compile(CANONICAL).unwrap().hash;
    assert_eq!(first, second);
    assert!(first.starts_with("sha256:"));
}

#[test]
fn accepts_normalized_network_capabilities() {
    let mut policy = offline_policy();
    policy.network.push(NetworkRule { host: "example.com".into(), port: 443 });
    assert!(policy.compile(CANONICAL).is_ok());
}

#[test]
fn rejects_literal_network_addresses_and_zero_ports() {
    let mut policy = offline_policy();
    policy.network.push(NetworkRule { host: "127.0.0.1".into(), port: 443 });
    assert!(policy.compile(CANONICAL).is_err());

    let mut policy = offline_policy();
    policy.network.push(NetworkRule { host: "example.com".into(), port: 0 });
    assert!(policy.compile(CANONICAL).is_err());
}

#[test]
fn rejects_invalid_resources() {
    let mut policy = offline_policy();
    policy.resources.cpus_bits = f64::NAN.to_bits();
    assert!(policy.compile(CANONICAL).is_err());
}

#[test]
fn validates_phase_graph_and_ceilings() {
    let mut policy = offline_policy();
    policy.network.push(NetworkRule { host: "example.com".into(), port: 443 });
    policy.phases.push(PhasePolicy {
        name: "install".into(),
        network: vec![NetworkRule { host: "example.com".into(), port: 443 }],
        resources: ResourcePolicy { memory_bytes: 256 * 1024 * 1024, cpus_bits: 0.5f64.to_bits(), pids: 25 },
        next: vec!["build".into()],
    });
    policy.phases.push(PhasePolicy {
        name: "build".into(),
        network: Vec::new(),
        resources: ResourcePolicy { memory_bytes: 128 * 1024 * 1024, cpus_bits: 0.25f64.to_bits(), pids: 10 },
        next: Vec::new(),
    });
    assert!(policy.copy().compile(CANONICAL).is_ok());
    policy.phases[0].next = vec!["missing".into()];
    assert!(policy.compile(CANONICAL).is_err());
}

#[test]
fn reports_the_first_fault_with_its_position() {
    let mut policy = offline_policy();
    policy.version = 2;
    assert_eq!(policy.validate(), Err(PolicyError::UnsupportedVersion));
    let mut policy = offline_policy();
    policy.filesystem.push(FsRule { path: "/ok".into(), access: FsAccess::Read });
    policy.filesystem.push(FsRule { path: "relative".into(), access: FsAccess::Read });
    assert_eq!(policy.validate(), Err(PolicyError::PathNotAbsolute(1)));
    let mut policy = offline_policy();
    policy.filesystem.push(FsRule { path: "/a/../b".into(), access: FsAccess::Read });
    assert_eq!(policy.validate(), Err(PolicyError::PathNotNormalized(0)));
    let mut policy = offline_policy();
    policy.network.push(NetworkRule { host: "Example.com".into(), port: 1 });
    assert_eq!(policy.validate(), Err(PolicyError::InvalidHost(0)));
    let mut policy = offline_policy();
    policy.resources.memory_bytes = 0;
    assert_eq!(policy.validate(), Err(PolicyError::MemoryNotPositive));
}

#[test]
fn paths_with_nul_are_refused() {
    let mut policy = offline_policy();
    policy.filesystem.push(FsRule { path: "/workspace/output".into(), access: FsAccess::ReadWrite });
    assert_eq!(policy.validate(), Ok(()));
    policy.filesystem.push(FsRule { path: "/work\0out".into(), access: FsAccess::Read });
    assert_eq!(policy.validate(), Err(PolicyError::PathHasNul(1)));
    assert_eq!(
        policy.fault_message(PolicyError::PathHasNul(1)),
        "filesystem capability path must not contain NUL: \"/work\0out\""
    );
}

#[test]
fn hash_is_sha256_of_the_canonical_bytes() {
    assert_eq!(hash_canonical(b"abc"), "sha256:ba7816bf8f01cfea414140de5dae2223b00361a396177a9cb410ff61f20015ad");
}

#[test]
fn policy_faults_are_reported_with_what_they_name() {
    let mut policy = offline_policy();
    policy.filesystem = vec![FsRule { path: "relative".to_string(), access: FsAccess::Read }];
    policy.network = vec![NetworkRule { host: "Bad.Host".to_string(), port: 443 }];
    assert_eq!(
        policy.fault_message(PolicyError::PathNotAbsolute(0)),
        "filesystem capability path must be absolute: \"relative\""
    );
    assert_eq!(
        policy.fault_message(PolicyError::InvalidHost(0)),
        "network host must be a normalized lowercase DNS name: Bad.Host"
    );
    policy.version = 7;
    assert_eq!(
        policy.fault_message(PolicyError::UnsupportedVersion),
        "unsupported capability policy version 7; expected 1"
    );
    assert_eq!(policy.fault_message(PolicyError::ZeroPort(0)), "network port must be positive");
}
