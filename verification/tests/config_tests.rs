use procmon_core::config::{rule_from_config, rule_to_config, ConditionKind};
use procmon_core::detector::{MisbehaviorCondition, Severity};
use procmon_core::process::{ProcessInfo, ProcessSnapshot, ProcessStats, ProcessStatus};
use procmon_core::{MisbehaviorDetector, MisbehaviorRule};

fn rule(name: &str, cond: MisbehaviorCondition, sev: Severity) -> MisbehaviorRule {
    MisbehaviorRule {
        name: name.to_string(),
        description: format!("{} description", name),
        condition: cond,
        severity: sev,
    }
}

fn all_variant_rules() -> Vec<MisbehaviorRule> {
    vec![
        rule(
            "cpu",
            MisbehaviorCondition::CpuUsageAbove { threshold_tenths: 805, duration_secs: 60 },
            Severity::Warning,
        ),
        rule(
            "mem",
            MisbehaviorCondition::MemoryUsageAbove {
                threshold_bytes: 2 * 1024 * 1024 * 1024,
                duration_secs: 30,
            },
            Severity::Critical,
        ),
        rule(
            "memp",
            MisbehaviorCondition::MemoryPercentAbove { threshold_tenths: 900, duration_secs: 15 },
            Severity::Info,
        ),
        rule(
            "disk",
            MisbehaviorCondition::DiskIoAbove {
                threshold_bytes_per_sec: 100 * 1024 * 1024,
                duration_secs: 60,
            },
            Severity::Warning,
        ),
        rule(
            "net",
            MisbehaviorCondition::NetworkIoAbove {
                threshold_bytes_per_sec: 10 * 1024 * 1024,
                duration_secs: 45,
            },
            Severity::Warning,
        ),
        rule(
            "threads",
            MisbehaviorCondition::TooManyThreads { threshold: 512 },
            Severity::Critical,
        ),
        rule("zombie", MisbehaviorCondition::ZombieProcess, Severity::Warning),
        rule(
            "writes",
            MisbehaviorCondition::HighDiskWrites {
                threshold_bytes_per_sec: 50 * 1024 * 1024,
                duration_secs: 20,
            },
            Severity::Info,
        ),
    ]
}

#[test]
fn round_trip_reproduces_every_variant() {
    for r in all_variant_rules() {
        let cfg = rule_to_config(&r);
        let back = rule_from_config(&cfg);
        assert_eq!(back, r);
    }
}

#[test]
fn exported_kinds_and_parameters() {
    let cfg = rule_to_config(&rule(
        "cpu",
        MisbehaviorCondition::CpuUsageAbove { threshold_tenths: 805, duration_secs: 60 },
        Severity::Warning,
    ));
    assert_eq!(cfg.kind, ConditionKind::CpuUsageAbove);
    assert_eq!(cfg.threshold, 805);
    assert_eq!(cfg.duration_secs, 60);
    assert_eq!(cfg.severity, Severity::Warning);
    assert_eq!(cfg.name, "cpu");

    let cfg = rule_to_config(&rule("zombie", MisbehaviorCondition::ZombieProcess, Severity::Info));
    assert_eq!(cfg.kind, ConditionKind::ZombieProcess);
    assert_eq!(cfg.threshold, 0);
    assert_eq!(cfg.duration_secs, 0);

    let cfg = rule_to_config(&rule(
        "threads",
        MisbehaviorCondition::TooManyThreads { threshold: 512 },
        Severity::Critical,
    ));
    assert_eq!(cfg.kind, ConditionKind::TooManyThreads);
    assert_eq!(cfg.threshold, 512);
    assert_eq!(cfg.duration_secs, 0);
}

#[test]
fn reloaded_rule_set_evaluates_identically() {
    let originals = all_variant_rules();
    let reloaded: Vec<MisbehaviorRule> = originals
        .iter()
        .map(|r| rule_from_config(&rule_to_config(r)))
        .collect();
    let mut d1 = MisbehaviorDetector::with_rules(originals);
    let mut d2 = MisbehaviorDetector::with_rules(reloaded);

    for t in 0..70i64 {
        let mut info = ProcessInfo::new(42, "worker".to_string(), "user".to_string(), 1000);
        info.status = if t % 7 == 0 { ProcessStatus::Zombie } else { ProcessStatus::Running };
        let stats = ProcessStats {
            pid: 42,
            cpu_usage_tenths: if t % 11 == 3 { 100 } else { 900 },
            memory_usage: 3 * 1024 * 1024 * 1024,
            memory_percent_tenths: 950,
            virtual_memory: 0,
            disk_read_bytes: (t as u64) * 200 * 1024 * 1024,
            disk_write_bytes: (t as u64) * 120 * 1024 * 1024,
            network_rx_bytes: (t as u64) * 8 * 1024 * 1024,
            network_tx_bytes: (t as u64) * 8 * 1024 * 1024,
            num_threads: 600,
            start_time_secs: 0,
            run_time_secs: t as u64,
        };
        let snap = ProcessSnapshot { info, stats, timestamp_secs: t };
        let snap2 = snap.clone();
        let a1 = d1.check_process_at(&snap, t);
        let a2 = d2.check_process_at(&snap2, t);
        assert_eq!(a1, a2, "identical outcomes at tick {}", t);
    }
}
