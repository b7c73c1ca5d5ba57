use procmon_core::detector::{MisbehaviorCondition, Severity};
use procmon_core::process::{ProcessInfo, ProcessSnapshot, ProcessStats, ProcessStatus};
use procmon_core::{MisbehaviorDetector, MisbehaviorRule};

fn stats(pid: u32) -> ProcessStats {
    ProcessStats {
        pid,
        cpu_usage_tenths: 0,
        memory_usage: 0,
        memory_percent_tenths: 0,
        virtual_memory: 0,
        disk_read_bytes: 0,
        disk_write_bytes: 0,
        network_rx_bytes: 0,
        network_tx_bytes: 0,
        num_threads: 0,
        start_time_secs: 0,
        run_time_secs: 1,
    }
}

fn snap_with(pid: u32, st: ProcessStats, status: ProcessStatus, ts: i64) -> ProcessSnapshot {
    let mut info = ProcessInfo::new(pid, format!("proc{}", pid), "user".to_string(), 1000);
    info.status = status;
    ProcessSnapshot {
        info,
        stats: st,
        timestamp_secs: ts,
    }
}

fn cpu_snap(pid: u32, cpu_tenths: u32, ts: i64) -> ProcessSnapshot {
    let mut st = stats(pid);
    st.cpu_usage_tenths = cpu_tenths;
    snap_with(pid, st, ProcessStatus::Running, ts)
}

fn cpu_rule(name: &str, tenths: u64, dur: u64, sev: Severity) -> MisbehaviorRule {
    MisbehaviorRule {
        name: name.to_string(),
        description: "cpu rule".to_string(),
        condition: MisbehaviorCondition::CpuUsageAbove {
            threshold_tenths: tenths,
            duration_secs: dur,
        },
        severity: sev,
    }
}

#[test]
fn cpu_persistence_first_alert_at_window() {
    let mut d = MisbehaviorDetector::with_rules(vec![cpu_rule(
        "High CPU Usage",
        800,
        60,
        Severity::Warning,
    )]);
    for t in 0..60i64 {
        let alerts = d.check_process_at(&cpu_snap(42, 850, t), t);
        assert!(alerts.is_empty(), "no alert before the span reaches 60s (t={})", t);
    }
    let alerts = d.check_process_at(&cpu_snap(42, 850, 60), 60);
    assert_eq!(alerts.len(), 1);
    let a = &alerts[0];
    assert_eq!(a.pid, 42);
    assert_eq!(a.process_name, "proc42");
    assert_eq!(a.rule_name, "High CPU Usage");
    assert_eq!(a.description, "cpu rule");
    assert_eq!(a.severity, Severity::Warning);
    assert_eq!(a.timestamp_secs, 60);
    assert_eq!(a.details, "CPU usage: 85.0% (threshold: 80.0%)");
}

#[test]
fn alert_repeats_while_window_still_satisfied() {
    let mut d = MisbehaviorDetector::with_rules(vec![cpu_rule("cpu", 800, 3, Severity::Warning)]);
    for t in 0..3i64 {
        assert!(d.check_process_at(&cpu_snap(7, 900, t), t).is_empty());
    }
    // Firing is not debounced: every later tick that still satisfies the
    // window emits a fresh alert.
    assert_eq!(d.check_process_at(&cpu_snap(7, 900, 3), 3).len(), 1);
    assert_eq!(d.check_process_at(&cpu_snap(7, 900, 4), 4).len(), 1);
    assert_eq!(d.check_process_at(&cpu_snap(7, 900, 5), 5).len(), 1);
}

#[test]
fn cpu_window_restarts_after_idle_tick() {
    let mut d = MisbehaviorDetector::with_rules(vec![cpu_rule(
        "High CPU Usage",
        800,
        60,
        Severity::Warning,
    )]);
    for t in 0..=60i64 {
        d.check_process_at(&cpu_snap(42, 850, t), t);
    }
    // One observed-false tick wipes this rule's records.
    let alerts = d.check_process_at(&cpu_snap(42, 100, 61), 61);
    assert!(alerts.is_empty());
    // The window restarts from zero: another full 60s of continuous truth
    // is needed before the next alert.
    for t in 62..122i64 {
        let alerts = d.check_process_at(&cpu_snap(42, 850, t), t);
        assert!(alerts.is_empty(), "window must restart from zero (t={})", t);
    }
    let alerts = d.check_process_at(&cpu_snap(42, 850, 122), 122);
    assert_eq!(alerts.len(), 1);
}

#[test]
fn zero_duration_alerts_on_first_true_tick() {
    let mut d = MisbehaviorDetector::with_rules(vec![cpu_rule("cpu0", 800, 0, Severity::Info)]);
    let alerts = d.check_process_at(&cpu_snap(5, 801, 1000), 1000);
    assert_eq!(alerts.len(), 1);
    assert_eq!(alerts[0].rule_name, "cpu0");
    assert_eq!(alerts[0].severity, Severity::Info);
}

#[test]
fn zombie_alerts_exactly_on_zombie_ticks() {
    let zombie_rule = MisbehaviorRule {
        name: "Zombie Process".to_string(),
        description: "Process is in zombie state".to_string(),
        condition: MisbehaviorCondition::ZombieProcess,
        severity: Severity::Warning,
    };
    let mut d = MisbehaviorDetector::with_rules(vec![zombie_rule]);
    let alerts = d.check_process_at(&snap_with(9, stats(9), ProcessStatus::Zombie, 0), 0);
    assert_eq!(alerts.len(), 1);
    assert_eq!(alerts[0].details, "Process is in zombie state");
    let alerts = d.check_process_at(&snap_with(9, stats(9), ProcessStatus::Running, 1), 1);
    assert!(alerts.is_empty());
    // Regardless of any history: it fires again the moment the state shows.
    let alerts = d.check_process_at(&snap_with(9, stats(9), ProcessStatus::Zombie, 2), 2);
    assert_eq!(alerts.len(), 1);
}

#[test]
fn thread_count_is_instantaneous() {
    let rule = MisbehaviorRule {
        name: "threads".to_string(),
        description: "too many threads".to_string(),
        condition: MisbehaviorCondition::TooManyThreads { threshold: 300 },
        severity: Severity::Critical,
    };
    let mut d = MisbehaviorDetector::with_rules(vec![rule]);
    let mut st = stats(3);
    st.num_threads = 500;
    let alerts = d.check_process_at(&snap_with(3, st, ProcessStatus::Running, 0), 0);
    assert_eq!(alerts.len(), 1);
    assert_eq!(alerts[0].details, "Threads: 500 (threshold: 300)");
    let mut st = stats(3);
    st.num_threads = 300;
    let alerts = d.check_process_at(&snap_with(3, st, ProcessStatus::Running, 1), 1);
    assert!(alerts.is_empty(), "threshold is strict");
}

#[test]
fn cross_rule_pruning_side_effect_pinned() {
    // Two duration rules share one per-process record sequence; each rule's
    // pruning step retains only records matching its own name. While both
    // conditions hold, each rule's pruning discards the other rule's fresh
    // records, so neither window ever accumulates.
    let cpu = cpu_rule("cpu", 800, 60, Severity::Warning);
    let mem = MisbehaviorRule {
        name: "mem".to_string(),
        description: "mem rule".to_string(),
        condition: MisbehaviorCondition::MemoryUsageAbove {
            threshold_bytes: 1024,
            duration_secs: 5,
        },
        severity: Severity::Warning,
    };
    let mut d = MisbehaviorDetector::with_rules(vec![cpu, mem]);
    for t in 0..10i64 {
        let mut st = stats(8);
        st.cpu_usage_tenths = 900;
        st.memory_usage = 4096;
        let alerts = d.check_process_at(&snap_with(8, st, ProcessStatus::Running, t), t);
        assert!(
            alerts.is_empty(),
            "shared-list cross-rule pruning keeps both windows at zero (t={})",
            t
        );
    }
    // Once the cpu condition stops being observed, only the memory rule
    // appends records, and its own window can finally accumulate. The
    // memory record of the last both-true tick survives, because the cpu
    // rule's pruning touches only records bearing its own name.
    for t in 10..14i64 {
        let mut st = stats(8);
        st.memory_usage = 4096;
        let alerts = d.check_process_at(&snap_with(8, st, ProcessStatus::Running, t), t);
        assert!(alerts.is_empty(), "memory span below 5s (t={})", t);
    }
    let mut st = stats(8);
    st.memory_usage = 4096;
    let alerts = d.check_process_at(&snap_with(8, st, ProcessStatus::Running, 14), 14);
    assert_eq!(alerts.len(), 1);
    assert_eq!(alerts[0].rule_name, "mem");
}

#[test]
fn cleanup_drops_absent_and_keeps_present() {
    let mut d = MisbehaviorDetector::with_rules(vec![cpu_rule("cpu", 800, 2, Severity::Warning)]);
    for t in 0..2i64 {
        assert!(d.check_process_at(&cpu_snap(1, 900, t), t).is_empty());
        assert!(d.check_process_at(&cpu_snap(2, 900, t), t).is_empty());
    }
    d.cleanup_dead_processes(&[2]);
    // Process 2's history is untouched: its window fires on schedule.
    let alerts = d.check_process_at(&cpu_snap(2, 900, 2), 2);
    assert_eq!(alerts.len(), 1);
    // Process 1's history is gone: its window restarts from zero.
    assert!(d.check_process_at(&cpu_snap(1, 900, 2), 2).is_empty());
    assert!(d.check_process_at(&cpu_snap(1, 900, 3), 3).is_empty());
    let alerts = d.check_process_at(&cpu_snap(1, 900, 4), 4);
    assert_eq!(alerts.len(), 1);
}

#[test]
fn default_rules_contents() {
    let d = MisbehaviorDetector::new();
    let rules = d.get_rules();
    assert_eq!(rules.len(), 6);
    assert_eq!(rules[0].name, "High CPU Usage");
    assert_eq!(
        rules[0].condition,
        MisbehaviorCondition::CpuUsageAbove { threshold_tenths: 800, duration_secs: 60 }
    );
    assert_eq!(rules[0].severity, Severity::Warning);
    assert_eq!(rules[1].name, "Extreme CPU Usage");
    assert_eq!(
        rules[1].condition,
        MisbehaviorCondition::CpuUsageAbove { threshold_tenths: 950, duration_secs: 10 }
    );
    assert_eq!(rules[1].severity, Severity::Critical);
    assert_eq!(rules[2].name, "High Memory Usage");
    assert_eq!(
        rules[2].condition,
        MisbehaviorCondition::MemoryUsageAbove {
            threshold_bytes: 2 * 1024 * 1024 * 1024,
            duration_secs: 30
        }
    );
    assert_eq!(rules[3].name, "Memory Leak Suspected");
    assert_eq!(
        rules[3].condition,
        MisbehaviorCondition::MemoryUsageAbove {
            threshold_bytes: 8 * 1024 * 1024 * 1024,
            duration_secs: 10
        }
    );
    assert_eq!(rules[3].severity, Severity::Critical);
    assert_eq!(rules[4].name, "Zombie Process");
    assert_eq!(rules[4].condition, MisbehaviorCondition::ZombieProcess);
    assert_eq!(rules[5].name, "High Disk I/O");
    assert_eq!(
        rules[5].condition,
        MisbehaviorCondition::DiskIoAbove {
            threshold_bytes_per_sec: 100 * 1024 * 1024,
            duration_secs: 60
        }
    );
}

#[test]
fn add_rule_appends_without_dedup() {
    let mut d = MisbehaviorDetector::new();
    let dup = cpu_rule("High CPU Usage", 800, 60, Severity::Warning);
    d.add_rule(dup.clone());
    let rules = d.get_rules();
    assert_eq!(rules.len(), 7);
    assert_eq!(rules[6], dup);
}

#[test]
fn with_rules_keeps_given_rules() {
    let rules = vec![
        cpu_rule("a", 100, 1, Severity::Info),
        cpu_rule("b", 200, 2, Severity::Critical),
    ];
    let d = MisbehaviorDetector::with_rules(rules.clone());
    assert_eq!(d.get_rules(), &rules[..]);
}

#[test]
fn memory_details_use_two_decimal_gib() {
    let rule = MisbehaviorRule {
        name: "mem".to_string(),
        description: "mem".to_string(),
        condition: MisbehaviorCondition::MemoryUsageAbove {
            threshold_bytes: 2 * 1024 * 1024 * 1024,
            duration_secs: 0,
        },
        severity: Severity::Warning,
    };
    let mut d = MisbehaviorDetector::with_rules(vec![rule]);
    let mut st = stats(6);
    st.memory_usage = 3 * 1024 * 1024 * 1024;
    let alerts = d.check_process_at(&snap_with(6, st, ProcessStatus::Running, 0), 0);
    assert_eq!(alerts.len(), 1);
    assert_eq!(alerts[0].details, "Memory usage: 3.00 GB (threshold: 2.00 GB)");
}

#[test]
fn memory_percent_rule_uses_tenths() {
    let rule = MisbehaviorRule {
        name: "memp".to_string(),
        description: "memp".to_string(),
        condition: MisbehaviorCondition::MemoryPercentAbove {
            threshold_tenths: 905,
            duration_secs: 0,
        },
        severity: Severity::Warning,
    };
    let mut d = MisbehaviorDetector::with_rules(vec![rule]);
    let mut st = stats(6);
    st.memory_percent_tenths = 906;
    let alerts = d.check_process_at(&snap_with(6, st, ProcessStatus::Running, 0), 0);
    assert_eq!(alerts.len(), 1);
    assert_eq!(alerts[0].details, "Memory usage: 90.6% (threshold: 90.5%)");
    let mut st = stats(6);
    st.memory_percent_tenths = 905;
    let alerts = d.check_process_at(&snap_with(6, st, ProcessStatus::Running, 1), 1);
    assert!(alerts.is_empty());
}

#[test]
fn disk_io_details_use_average_rate() {
    let rule = MisbehaviorRule {
        name: "disk".to_string(),
        description: "disk".to_string(),
        condition: MisbehaviorCondition::DiskIoAbove {
            threshold_bytes_per_sec: 100 * 1024 * 1024,
            duration_secs: 0,
        },
        severity: Severity::Warning,
    };
    let mut d = MisbehaviorDetector::with_rules(vec![rule]);
    let mut st = stats(6);
    st.disk_read_bytes = 200 * 1024 * 1024;
    st.disk_write_bytes = 100 * 1024 * 1024;
    st.run_time_secs = 2;
    let alerts = d.check_process_at(&snap_with(6, st, ProcessStatus::Running, 0), 0);
    assert_eq!(alerts.len(), 1);
    assert_eq!(alerts[0].details, "Disk I/O: 150.00 MB/s (threshold: 100.00 MB/s)");
}

#[test]
fn network_io_rule_sums_both_directions() {
    let rule = MisbehaviorRule {
        name: "net".to_string(),
        description: "net".to_string(),
        condition: MisbehaviorCondition::NetworkIoAbove {
            threshold_bytes_per_sec: 10 * 1024 * 1024,
            duration_secs: 0,
        },
        severity: Severity::Info,
    };
    let mut d = MisbehaviorDetector::with_rules(vec![rule]);
    let mut st = stats(6);
    st.network_rx_bytes = 6 * 1024 * 1024;
    st.network_tx_bytes = 6 * 1024 * 1024;
    st.run_time_secs = 1;
    let alerts = d.check_process_at(&snap_with(6, st, ProcessStatus::Running, 0), 0);
    assert_eq!(alerts.len(), 1);
    assert_eq!(alerts[0].details, "Network I/O: 12.00 MB/s (threshold: 10.00 MB/s)");
}

#[test]
fn rate_divisor_floors_at_one_second() {
    let rule = MisbehaviorRule {
        name: "writes".to_string(),
        description: "writes".to_string(),
        condition: MisbehaviorCondition::HighDiskWrites {
            threshold_bytes_per_sec: 100 * 1024 * 1024,
            duration_secs: 0,
        },
        severity: Severity::Warning,
    };
    let mut d = MisbehaviorDetector::with_rules(vec![rule]);
    // Zero run time degrades gracefully: the divisor is floored at 1s.
    let mut st = stats(6);
    st.disk_write_bytes = 150 * 1024 * 1024;
    st.run_time_secs = 0;
    let alerts = d.check_process_at(&snap_with(6, st, ProcessStatus::Running, 0), 0);
    assert_eq!(alerts.len(), 1);
    assert_eq!(alerts[0].details, "Disk writes: 150.00 MB/s (threshold: 100.00 MB/s)");
    // A long-lived process averages the same counters below the threshold.
    let mut st = stats(6);
    st.disk_write_bytes = 150 * 1024 * 1024;
    st.run_time_secs = 3;
    let alerts = d.check_process_at(&snap_with(6, st, ProcessStatus::Running, 1), 1);
    assert!(alerts.is_empty());
}

#[test]
fn check_process_uses_wall_clock() {
    // Through the wall-clock entry point: instantaneous and zero-window
    // rules fire on the first qualifying snapshot whatever the clock says.
    let mut d = MisbehaviorDetector::with_rules(vec![
        MisbehaviorRule {
            name: "zombie".to_string(),
            description: "z".to_string(),
            condition: MisbehaviorCondition::ZombieProcess,
            severity: Severity::Warning,
        },
        cpu_rule("cpu0", 800, 0, Severity::Info),
    ]);
    let mut st = stats(11);
    st.cpu_usage_tenths = 999;
    let alerts = d.check_process(&snap_with(11, st, ProcessStatus::Zombie, 0));
    assert_eq!(alerts.len(), 2);
    assert_eq!(alerts[0].rule_name, "zombie");
    assert_eq!(alerts[1].rule_name, "cpu0");
    assert!(alerts[0].timestamp_secs > 0);
}

#[test]
fn evaluation_is_per_process() {
    let mut d = MisbehaviorDetector::with_rules(vec![cpu_rule("cpu", 800, 2, Severity::Warning)]);
    for t in 0..2i64 {
        assert!(d.check_process_at(&cpu_snap(1, 900, t), t).is_empty());
    }
    // A different process starts its own window.
    assert!(d.check_process_at(&cpu_snap(99, 900, 2), 2).is_empty());
    // The first process's window is unaffected by the other's evaluation.
    let alerts = d.check_process_at(&cpu_snap(1, 900, 2), 2);
    assert_eq!(alerts.len(), 1);
}
