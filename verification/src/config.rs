//! Structured-configuration form of a rule, for external load and reload.
//!
//! A `RuleConfig` flattens a rule into plain fields: the condition kind,
//! one threshold (in the kind's own unit) and one window. Reloading a
//! saved configuration rebuilds the rule exactly, so a reloaded rule set
//! evaluates identically to the one it was exported from.

use vstd::prelude::*;
use crate::detector::{MisbehaviorCondition, MisbehaviorRule, Severity};

verus! {

/// The variant of a condition, without its parameters.
#[derive(Debug, Clone, Copy, PartialEq, Eq, Structural)]
pub enum ConditionKind {
    CpuUsageAbove,
    MemoryUsageAbove,
    MemoryPercentAbove,
    DiskIoAbove,
    NetworkIoAbove,
    TooManyThreads,
    ZombieProcess,
    HighDiskWrites,
}

/// One rule as flat configuration data. `threshold` is in tenths of a
/// percent, bytes, bytes per second or a thread count, as the kind asks;
/// `duration_secs` is zero for instantaneous kinds.
#[derive(Debug, Clone, PartialEq)]
pub struct RuleConfig {
    pub name: String,
    pub description: String,
    pub kind: ConditionKind,
    pub threshold: u64,
    pub duration_secs: u64,
    pub severity: Severity,
}

/// The configuration a rule exports to.
pub open spec fn spec_rule_to_config(r: MisbehaviorRule) -> RuleConfig {
    RuleConfig {
        name: r.name,
        description: r.description,
        kind: match r.condition {
            MisbehaviorCondition::CpuUsageAbove { .. } => ConditionKind::CpuUsageAbove,
            MisbehaviorCondition::MemoryUsageAbove { .. } => ConditionKind::MemoryUsageAbove,
            MisbehaviorCondition::MemoryPercentAbove { .. } => ConditionKind::MemoryPercentAbove,
            MisbehaviorCondition::DiskIoAbove { .. } => ConditionKind::DiskIoAbove,
            MisbehaviorCondition::NetworkIoAbove { .. } => ConditionKind::NetworkIoAbove,
            MisbehaviorCondition::TooManyThreads { .. } => ConditionKind::TooManyThreads,
            MisbehaviorCondition::ZombieProcess => ConditionKind::ZombieProcess,
            MisbehaviorCondition::HighDiskWrites { .. } => ConditionKind::HighDiskWrites,
        },
        threshold: match r.condition {
            MisbehaviorCondition::CpuUsageAbove { threshold_tenths, .. } => threshold_tenths,
            MisbehaviorCondition::MemoryUsageAbove { threshold_bytes, .. } => threshold_bytes,
            MisbehaviorCondition::MemoryPercentAbove { threshold_tenths, .. } => threshold_tenths,
            MisbehaviorCondition::DiskIoAbove { threshold_bytes_per_sec, .. } => threshold_bytes_per_sec,
            MisbehaviorCondition::NetworkIoAbove { threshold_bytes_per_sec, .. } => threshold_bytes_per_sec,
            MisbehaviorCondition::TooManyThreads { threshold } => threshold as u64,
            MisbehaviorCondition::ZombieProcess => 0u64,
            MisbehaviorCondition::HighDiskWrites { threshold_bytes_per_sec, .. } => threshold_bytes_per_sec,
        },
        duration_secs: match cond_window(r.condition) {
            Some(d) => d,
            None => 0u64,
        },
        severity: r.severity,
    }
}

/// The window stored in a condition, if any.
pub open spec fn cond_window(c: MisbehaviorCondition) -> Option<u64> {
    match c {
        MisbehaviorCondition::CpuUsageAbove { duration_secs, .. } => Some(duration_secs),
        MisbehaviorCondition::MemoryUsageAbove { duration_secs, .. } => Some(duration_secs),
        MisbehaviorCondition::MemoryPercentAbove { duration_secs, .. } => Some(duration_secs),
        MisbehaviorCondition::DiskIoAbove { duration_secs, .. } => Some(duration_secs),
        MisbehaviorCondition::NetworkIoAbove { duration_secs, .. } => Some(duration_secs),
        MisbehaviorCondition::TooManyThreads { .. } => None,
        MisbehaviorCondition::ZombieProcess => None,
        MisbehaviorCondition::HighDiskWrites { duration_secs, .. } => Some(duration_secs),
    }
}

/// The rule a configuration reloads to.
pub open spec fn spec_rule_from_config(c: RuleConfig) -> MisbehaviorRule {
    MisbehaviorRule {
        name: c.name,
        description: c.description,
        condition: match c.kind {
            ConditionKind::CpuUsageAbove => MisbehaviorCondition::CpuUsageAbove {
                threshold_tenths: c.threshold,
                duration_secs: c.duration_secs,
            },
            ConditionKind::MemoryUsageAbove => MisbehaviorCondition::MemoryUsageAbove {
                threshold_bytes: c.threshold,
                duration_secs: c.duration_secs,
            },
            ConditionKind::MemoryPercentAbove => MisbehaviorCondition::MemoryPercentAbove {
                threshold_tenths: c.threshold,
                duration_secs: c.duration_secs,
            },
            ConditionKind::DiskIoAbove => MisbehaviorCondition::DiskIoAbove {
                threshold_bytes_per_sec: c.threshold,
                duration_secs: c.duration_secs,
            },
            ConditionKind::NetworkIoAbove => MisbehaviorCondition::NetworkIoAbove {
                threshold_bytes_per_sec: c.threshold,
                duration_secs: c.duration_secs,
            },
            ConditionKind::TooManyThreads => MisbehaviorCondition::TooManyThreads {
                threshold: c.threshold as u32,
            },
            ConditionKind::ZombieProcess => MisbehaviorCondition::ZombieProcess,
            ConditionKind::HighDiskWrites => MisbehaviorCondition::HighDiskWrites {
                threshold_bytes_per_sec: c.threshold,
                duration_secs: c.duration_secs,
            },
        },
        severity: c.severity,
    }
}

/// Export one rule to its configuration form.
pub fn rule_to_config(rule: &MisbehaviorRule) -> (c: RuleConfig)
    ensures
        c == spec_rule_to_config(*rule),
{
    let (kind, threshold, duration_secs): (ConditionKind, u64, u64) = match rule.condition {
        MisbehaviorCondition::CpuUsageAbove { threshold_tenths, duration_secs } => (
            ConditionKind::CpuUsageAbove,
            threshold_tenths,
            duration_secs,
        ),
        MisbehaviorCondition::MemoryUsageAbove { threshold_bytes, duration_secs } => (
            ConditionKind::MemoryUsageAbove,
            threshold_bytes,
            duration_secs,
        ),
        MisbehaviorCondition::MemoryPercentAbove { threshold_tenths, duration_secs } => (
            ConditionKind::MemoryPercentAbove,
            threshold_tenths,
            duration_secs,
        ),
        MisbehaviorCondition::DiskIoAbove { threshold_bytes_per_sec, duration_secs } => (
            ConditionKind::DiskIoAbove,
            threshold_bytes_per_sec,
            duration_secs,
        ),
        MisbehaviorCondition::NetworkIoAbove { threshold_bytes_per_sec, duration_secs } => (
            ConditionKind::NetworkIoAbove,
            threshold_bytes_per_sec,
            duration_secs,
        ),
        MisbehaviorCondition::TooManyThreads { threshold } => (
            ConditionKind::TooManyThreads,
            threshold as u64,
            0,
        ),
        MisbehaviorCondition::ZombieProcess => (ConditionKind::ZombieProcess, 0, 0),
        MisbehaviorCondition::HighDiskWrites { threshold_bytes_per_sec, duration_secs } => (
            ConditionKind::HighDiskWrites,
            threshold_bytes_per_sec,
            duration_secs,
        ),
    };
    RuleConfig {
        name: rule.name.clone(),
        description: rule.description.clone(),
        kind,
        threshold,
        duration_secs,
        severity: rule.severity,
    }
}

/// Reload one rule from its configuration form.
pub fn rule_from_config(c: &RuleConfig) -> (r: MisbehaviorRule)
    ensures
        r == spec_rule_from_config(*c),
{
    let condition = match c.kind {
        ConditionKind::CpuUsageAbove => MisbehaviorCondition::CpuUsageAbove {
            threshold_tenths: c.threshold,
            duration_secs: c.duration_secs,
        },
        ConditionKind::MemoryUsageAbove => MisbehaviorCondition::MemoryUsageAbove {
            threshold_bytes: c.threshold,
            duration_secs: c.duration_secs,
        },
        ConditionKind::MemoryPercentAbove => MisbehaviorCondition::MemoryPercentAbove {
            threshold_tenths: c.threshold,
            duration_secs: c.duration_secs,
        },
        ConditionKind::DiskIoAbove => MisbehaviorCondition::DiskIoAbove {
            threshold_bytes_per_sec: c.threshold,
            duration_secs: c.duration_secs,
        },
        ConditionKind::NetworkIoAbove => MisbehaviorCondition::NetworkIoAbove {
            threshold_bytes_per_sec: c.threshold,
            duration_secs: c.duration_secs,
        },
        ConditionKind::TooManyThreads => MisbehaviorCondition::TooManyThreads {
            threshold: #[verifier::truncate] (c.threshold as u32),
        },
        ConditionKind::ZombieProcess => MisbehaviorCondition::ZombieProcess,
        ConditionKind::HighDiskWrites => MisbehaviorCondition::HighDiskWrites {
            threshold_bytes_per_sec: c.threshold,
            duration_secs: c.duration_secs,
        },
    };
    MisbehaviorRule {
        name: c.name.clone(),
        description: c.description.clone(),
        condition,
        severity: c.severity,
    }
}

/// Exporting a rule to configuration and reloading it reproduces the rule
/// exactly — name, condition parameters, window and severity — so a
/// reloaded rule set evaluates identically to the one it was exported
/// from, on every snapshot sequence.
pub proof fn lemma_config_round_trip(r: MisbehaviorRule)
    ensures
        spec_rule_from_config(spec_rule_to_config(r)) == r,
{
}

} // verus!
