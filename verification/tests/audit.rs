use tinybox::audit::AuditSink;

#[test]
fn ring_buffer_counts_evictions() {
    let mut sink = AuditSink::with_capacity("sb-test".into(), None, 2);
    for target in ["one", "two", "three"] {
        sink.record("test", "allow", "network", target.to_string(), None, "test".to_string());
    }
    let snapshot = sink.snapshot();
    assert_eq!(snapshot.events.len(), 2);
    assert_eq!(snapshot.events[0].target, "two");
    assert_eq!(snapshot.dropped_events, 1);
}

#[test]
fn new_sink_starts_static_and_empty() {
    let sink = AuditSink::new("sb-1".into(), Some("sha256:ab".into()));
    let snapshot = sink.snapshot();
    assert!(snapshot.events.is_empty());
    assert_eq!(snapshot.dropped_events, 0);
    assert_eq!(sink.sandbox_id(), "sb-1");
}

#[test]
fn events_carry_sink_identity_and_phase() {
    let mut sink = AuditSink::new("sb-7".into(), Some("sha256:ff".into()));
    sink.set_phase("build");
    sink.record("broker", "deny", "network.connect", "example.com:443".into(), Some("network:0".into()), "nope".into());
    let snapshot = sink.snapshot();
    let event = &snapshot.events[0];
    assert_eq!(event.sandbox_id, "sb-7");
    assert_eq!(event.policy_hash.as_deref(), Some("sha256:ff"));
    assert_eq!(event.phase, "build");
    assert_eq!(event.source, "broker");
    assert_eq!(event.decision, "deny");
    assert_eq!(event.rule_id.as_deref(), Some("network:0"));
}

#[test]
fn summary_tallies_decisions_and_capabilities() {
    let mut sink = AuditSink::new("sb-2".into(), None);
    sink.record("a", "allow", "net", "x".into(), None, "r".into());
    sink.record("a", "deny", "net", "y".into(), None, "r".into());
    sink.record("a", "allow", "fs", "z".into(), None, "r".into());
    let summary = sink.summary();
    assert_eq!(summary.event_count, 3);
    assert_eq!(summary.dropped_events, 0);
    let count = |entries: &Vec<(String, u64)>, key: &str| entries.iter().find(|e| e.0 == key).map(|e| e.1);
    assert_eq!(count(&summary.decisions, "allow"), Some(2));
    assert_eq!(count(&summary.decisions, "deny"), Some(1));
    assert_eq!(count(&summary.capabilities, "net"), Some(2));
    assert_eq!(count(&summary.capabilities, "fs"), Some(1));
    assert_eq!(summary.decisions.len(), 2);
}

#[test]
fn bounded_log_never_exceeds_capacity() {
    let mut sink = AuditSink::with_capacity("sb-3".into(), None, 3);
    for i in 0..10 {
        sink.record("t", "allow", "c", format!("{i}"), None, "r".into());
        assert!(sink.snapshot().events.len() <= 3);
    }
    let snapshot = sink.snapshot();
    assert_eq!(snapshot.events.len() as u64 + snapshot.dropped_events, 10);
    assert_eq!(snapshot.events[2].target, "9");
}

#[test]
fn summary_lists_keys_in_order_with_positive_counts() {
    let mut sink = AuditSink::new("sb-4".into(), None);
    for (decision, capability) in [("deny", "net"), ("allow", "fs"), ("deny", "exec"), ("allow", "net")] {
        sink.record("a", decision, capability, "t".into(), None, "r".into());
    }
    let summary = sink.summary();
    assert_eq!(summary.decisions, vec![("allow".to_string(), 2), ("deny".to_string(), 2)]);
    assert_eq!(
        summary.capabilities,
        vec![("exec".to_string(), 1), ("fs".to_string(), 1), ("net".to_string(), 2)]
    );
}

#[test]
fn full_log_keeps_the_newest_events() {
    let mut sink = AuditSink::with_capacity("sb-5".into(), None, 2);
    for target in ["a", "b", "c", "d", "e"] {
        sink.record("t", "allow", "c", target.to_string(), None, "r".into());
    }
    let snapshot = sink.snapshot();
    let targets: Vec<&str> = snapshot.events.iter().map(|e| e.target.as_str()).collect();
    assert_eq!(targets, vec!["d", "e"]);
    assert_eq!(snapshot.dropped_events, 3);
}

#[test]
fn default_sink_drops_the_first_of_1025_events() {
    let mut sink = AuditSink::new("sb-6".into(), None);
    for i in 0..1025 {
        sink.record("t", "allow", "c", format!("{i}"), None, "r".into());
    }
    let snapshot = sink.snapshot();
    assert_eq!(snapshot.events.len(), 1024);
    assert_eq!(snapshot.dropped_events, 1);
    assert_eq!(snapshot.events[0].target, "1");
    assert_eq!(snapshot.events[1023].target, "1024");
}
