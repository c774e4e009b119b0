use tinybox::cgroup::{cgroup_plan, memory_value_fits, parse_memory, resource_writes, CgroupConfig, CgroupError, MemoryError};

#[test]
fn test_parse_memory_bytes() {
    assert_eq!(parse_memory("1024").unwrap(), 1024);
}

#[test]
fn test_parse_memory_k() {
    assert_eq!(parse_memory("1k").unwrap(), 1024);
}

#[test]
fn test_parse_memory_m() {
    assert_eq!(parse_memory("64m").unwrap(), 64 * 1024 * 1024);
    assert_eq!(parse_memory("256m").unwrap(), 256 * 1024 * 1024);
}

#[test]
fn test_parse_memory_g() {
    assert_eq!(parse_memory("1g").unwrap(), 1024 * 1024 * 1024);
}

#[test]
fn test_parse_memory_b() {
    assert_eq!(parse_memory("512b").unwrap(), 512);
}

#[test]
fn test_parse_memory_invalid() {
    assert!(parse_memory("").is_err());
    assert!(parse_memory("abc").is_err());
    assert!(parse_memory("64x").is_err());
}

#[test]
fn memory_sizes_trim_and_classify_errors() {
    assert_eq!(parse_memory("  2k \n").unwrap(), 2048);
    assert_eq!(parse_memory("   "), Err(MemoryError::Empty));
    assert_eq!(parse_memory("k"), Err(MemoryError::Invalid));
    assert_eq!(parse_memory("+5"), Ok(5));
    assert!(memory_value_fits("1g"));
    assert!(!memory_value_fits("18446744073709551615g"));
}

fn config(memory: Option<u64>, quota: Option<i64>, pids: Option<u64>) -> CgroupConfig {
    CgroupConfig { name: "tinybox-1".into(), memory, cpus_bits: None, cpu_quota: quota, cpu_period: None, pids_limit: pids }
}

#[test]
fn cgroup_plan_writes_limits_in_order() {
    let plan = cgroup_plan(&config(Some(1024), Some(50000), Some(10)), "cpu memory pids\n", 0).unwrap();
    let writes: Vec<(String, String)> = plan.writes.into_iter().map(|w| (w.file, w.content)).collect();
    assert_eq!(
        writes,
        vec![
            ("memory.max".to_string(), "1024".to_string()),
            ("memory.swap.max".to_string(), "0".to_string()),
            ("cpu.max".to_string(), "50000 100000".to_string()),
            ("pids.max".to_string(), "10".to_string()),
        ]
    );
    assert!(plan.failure.is_none());
}

#[test]
fn cgroup_plan_refuses_missing_controllers_and_bad_quota() {
    assert_eq!(cgroup_plan(&config(Some(1), None, None), "cpu pids", 0).err(), Some(CgroupError::NoMemoryController));
    assert_eq!(cgroup_plan(&config(None, None, Some(3)), "cpu memory", 0).err(), Some(CgroupError::NoPidsController));
    let plan = cgroup_plan(&config(Some(1), Some(0), None), "cpu memory", 0).unwrap();
    assert_eq!(plan.failure, Some(CgroupError::QuotaNotPositive(0)));
    assert_eq!(plan.writes.len(), 2);
    let mut cpus = config(None, None, None);
    cpus.cpus_bits = Some((-1.0f64).to_bits());
    let plan = cgroup_plan(&cpus, "cpu", 0).unwrap();
    assert_eq!(plan.failure, Some(CgroupError::CpusNotPositive));
    cpus.cpus_bits = Some(1.5f64.to_bits());
    let plan = cgroup_plan(&cpus, "cpu", 150000).unwrap();
    assert_eq!(plan.writes[0].content, "150000 100000");
}

#[test]
fn live_resource_update_writes_three_files() {
    let writes = resource_writes(2048, 50000, 7);
    assert_eq!(writes[0].file, "memory.max");
    assert_eq!(writes[0].content, "2048");
    assert_eq!(writes[1].content, "50000 100000");
    assert_eq!(writes[2].content, "7");
}

#[test]
fn memory_errors_name_the_value() {
    assert_eq!(tinybox::cgroup::MemoryError::Invalid.message("  12x "), "invalid memory value: 12x");
    assert_eq!(tinybox::cgroup::MemoryError::Empty.message(""), "empty memory value");
}
