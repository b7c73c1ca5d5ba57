//! The anomaly-detection engine: a rule set, per-process violation
//! histories, and the facade that evaluates every rule against one process
//! snapshot per tick.
//!
//! Thresholds on percentages are counted in tenths of a percent; times are
//! whole seconds since the Unix epoch. Rate-style conditions compare the
//! average rate since process start, with the divisor floored at one
//! second.

use vstd::prelude::*;
use crate::process::{ProcessSnapshot, ProcessStats};
use crate::render::{
    gib_hundredths, gib_hundredths_u64, mib_hundredths, mib_hundredths_u128, spec_dec,
    spec_hundredths, spec_tenths, dec_u64, hundredths_string, tenths_string,
};
use crate::tracker::{
    clear_rule, rec_model, recs_model, track_fires, track_step, ViolationRecord,
    lemma_track_step_shape, clear_records, prune_records,
};

verus! {

/// Severity of a misbehavior rule, ordered from least to most severe.
#[derive(Debug, Clone, Copy, PartialEq, Eq, PartialOrd, Ord, Structural)]
pub enum Severity {
    Info,
    Warning,
    Critical,
}

/// A threshold condition; variants with `duration_secs` must hold that long
/// continuously, the others are judged on the current snapshot alone.
#[derive(Debug, Clone, Copy, PartialEq, Eq, Structural)]
pub enum MisbehaviorCondition {
    CpuUsageAbove { threshold_tenths: u64, duration_secs: u64 },
    MemoryUsageAbove { threshold_bytes: u64, duration_secs: u64 },
    MemoryPercentAbove { threshold_tenths: u64, duration_secs: u64 },
    DiskIoAbove { threshold_bytes_per_sec: u64, duration_secs: u64 },
    NetworkIoAbove { threshold_bytes_per_sec: u64, duration_secs: u64 },
    TooManyThreads { threshold: u32 },
    ZombieProcess,
    HighDiskWrites { threshold_bytes_per_sec: u64, duration_secs: u64 },
}

/// A named condition with a severity.
#[derive(Debug, Clone, PartialEq)]
pub struct MisbehaviorRule {
    pub name: String,
    pub description: String,
    pub condition: MisbehaviorCondition,
    pub severity: Severity,
}

/// One emitted alert: which rule fired for which process, when, and a
/// rendered detail line.
#[derive(Debug, Clone, PartialEq)]
pub struct MisbehaviorAlert {
    pub pid: u32,
    pub process_name: String,
    pub rule_name: String,
    pub description: String,
    pub severity: Severity,
    pub timestamp_secs: i64,
    pub details: String,
}

/// The engine: an append-only rule set and one violation-record sequence
/// per process, keyed by process id.
pub struct MisbehaviorDetector {
    rules: Vec<MisbehaviorRule>,
    violation_history: Vec<(u32, Vec<ViolationRecord>)>,
}

/// The persistence window of a condition, if it has one.
pub open spec fn cond_duration(c: MisbehaviorCondition) -> Option<u64> {
    match c {
        MisbehaviorCondition::CpuUsageAbove { duration_secs, .. } => Some(duration_secs),
        MisbehaviorCondition::MemoryUsageAbove { duration_secs, .. } => Some(duration_secs),
        MisbehaviorCondition::MemoryPercentAbove { duration_secs, .. } => Some(duration_secs),
        MisbehaviorCondition::DiskIoAbove { duration_secs, .. } => Some(duration_secs),
        MisbehaviorCondition::NetworkIoAbove { duration_secs, .. } => Some(duration_secs),
        MisbehaviorCondition::TooManyThreads { .. } => None,
        MisbehaviorCondition::ZombieProcess => None,
        MisbehaviorCondition::HighDiskWrites { duration_secs, .. } => Some(duration_secs),
    }
}

/// Divisor for average rates: the run time, floored at one second.
pub open spec fn rate_divisor(run_secs: int) -> int {
    if run_secs < 1 {
        1
    } else {
        run_secs
    }
}

/// Average combined disk rate since process start, bytes per second.
pub open spec fn disk_io_rate(stats: ProcessStats) -> int {
    (stats.disk_read_bytes as int + stats.disk_write_bytes as int) / rate_divisor(
        stats.run_time_secs as int,
    )
}

/// Average combined network rate since process start, bytes per second.
pub open spec fn net_io_rate(stats: ProcessStats) -> int {
    (stats.network_rx_bytes as int + stats.network_tx_bytes as int) / rate_divisor(
        stats.run_time_secs as int,
    )
}

/// Average disk write rate since process start, bytes per second.
pub open spec fn disk_write_rate(stats: ProcessStats) -> int {
    stats.disk_write_bytes as int / rate_divisor(stats.run_time_secs as int)
}

/// Whether the snapshot shows the condition's threshold exceeded this tick.
pub open spec fn cond_observed(c: MisbehaviorCondition, snap: ProcessSnapshot) -> bool {
    match c {
        MisbehaviorCondition::CpuUsageAbove { threshold_tenths, .. } => snap.stats.cpu_usage_tenths
            as int > threshold_tenths as int,
        MisbehaviorCondition::MemoryUsageAbove { threshold_bytes, .. } => snap.stats.memory_usage
            as int > threshold_bytes as int,
        MisbehaviorCondition::MemoryPercentAbove { threshold_tenths, .. } => snap.stats.memory_percent_tenths
            as int > threshold_tenths as int,
        MisbehaviorCondition::DiskIoAbove { threshold_bytes_per_sec, .. } => disk_io_rate(
            snap.stats,
        ) > threshold_bytes_per_sec as int,
        MisbehaviorCondition::NetworkIoAbove { threshold_bytes_per_sec, .. } => net_io_rate(
            snap.stats,
        ) > threshold_bytes_per_sec as int,
        MisbehaviorCondition::TooManyThreads { threshold } => snap.stats.num_threads as int
            > threshold as int,
        MisbehaviorCondition::ZombieProcess => snap.info.status is Zombie,
        MisbehaviorCondition::HighDiskWrites { threshold_bytes_per_sec, .. } => disk_write_rate(
            snap.stats,
        ) > threshold_bytes_per_sec as int,
    }
}

/// Whether one rule fires on this tick: duration-bearing conditions go
/// through the tracker, instantaneous ones are judged on the snapshot.
pub open spec fn rule_fires(
    recs: Seq<(Seq<char>, int)>,
    name: Seq<char>,
    c: MisbehaviorCondition,
    snap: ProcessSnapshot,
    now: int,
) -> bool {
    match cond_duration(c) {
        Some(d) => cond_observed(c, snap) && track_fires(recs, name, d as int, now),
        None => cond_observed(c, snap),
    }
}

/// The record sequence a history map holds for a process, empty if none.
pub open spec fn hist_at(h: Map<u32, Seq<(Seq<char>, int)>>, pid: u32) -> Seq<(Seq<char>, int)> {
    if h.dom().contains(pid) {
        h[pid]
    } else {
        Seq::empty()
    }
}

/// The history map after evaluating one rule for one process: an observed
/// true tick of a duration-bearing condition appends a record and prunes
/// the rule's window, an observed false one wipes that rule's records so
/// its window restarts from zero, and an instantaneous condition leaves
/// the history untouched.
pub open spec fn hist_after_rule(
    h: Map<u32, Seq<(Seq<char>, int)>>,
    pid: u32,
    name: Seq<char>,
    c: MisbehaviorCondition,
    snap: ProcessSnapshot,
    now: int,
) -> Map<u32, Seq<(Seq<char>, int)>> {
    match cond_duration(c) {
        Some(d) => if cond_observed(c, snap) {
            h.insert(pid, track_step(hist_at(h, pid), name, d as int, now))
        } else if h.dom().contains(pid) {
            h.insert(pid, clear_rule(h[pid], name))
        } else {
            h
        },
        None => h,
    }
}

/// The history map after evaluating the first `k` rules in order for one
/// process.
pub open spec fn hist_after_first(
    h: Map<u32, Seq<(Seq<char>, int)>>,
    rules: Seq<MisbehaviorRule>,
    k: int,
    snap: ProcessSnapshot,
    now: int,
) -> Map<u32, Seq<(Seq<char>, int)>>
    decreases k,
{
    if k <= 0 {
        h
    } else {
        hist_after_rule(
            hist_after_first(h, rules, k - 1, snap, now),
            snap.info.pid,
            rules[k - 1].name@,
            rules[k - 1].condition,
            snap,
            now,
        )
    }
}

/// The rules among the first `k` that fire on this tick, in rule order,
/// each judged against the history as the rules before it left it.
pub open spec fn fired_first(
    h: Map<u32, Seq<(Seq<char>, int)>>,
    rules: Seq<MisbehaviorRule>,
    k: int,
    snap: ProcessSnapshot,
    now: int,
) -> Seq<MisbehaviorRule>
    decreases k,
{
    if k <= 0 {
        Seq::empty()
    } else {
        let prev = fired_first(h, rules, k - 1, snap, now);
        if rule_fires(
            hist_at(hist_after_first(h, rules, k - 1, snap, now), snap.info.pid),
            rules[k - 1].name@,
            rules[k - 1].condition,
            snap,
            now,
        ) {
            prev.push(rules[k - 1])
        } else {
            prev
        }
    }
}

/// The rendered detail line for one condition against one snapshot.
pub open spec fn spec_details(c: MisbehaviorCondition, stats: ProcessStats) -> Seq<char> {
    match c {
        MisbehaviorCondition::CpuUsageAbove { threshold_tenths, .. } => "CPU usage: "@
            + spec_tenths(stats.cpu_usage_tenths as int) + "% (threshold: "@ + spec_tenths(
            threshold_tenths as int,
        ) + "%)"@,
        MisbehaviorCondition::MemoryUsageAbove { threshold_bytes, .. } => "Memory usage: "@
            + spec_hundredths(gib_hundredths(stats.memory_usage as int)) + " GB (threshold: "@
            + spec_hundredths(gib_hundredths(threshold_bytes as int)) + " GB)"@,
        MisbehaviorCondition::MemoryPercentAbove { threshold_tenths, .. } => "Memory usage: "@
            + spec_tenths(stats.memory_percent_tenths as int) + "% (threshold: "@ + spec_tenths(
            threshold_tenths as int,
        ) + "%)"@,
        MisbehaviorCondition::DiskIoAbove { threshold_bytes_per_sec, .. } => "Disk I/O: "@
            + spec_hundredths(mib_hundredths(disk_io_rate(stats))) + " MB/s (threshold: "@
            + spec_hundredths(mib_hundredths(threshold_bytes_per_sec as int)) + " MB/s)"@,
        MisbehaviorCondition::NetworkIoAbove { threshold_bytes_per_sec, .. } => "Network I/O: "@
            + spec_hundredths(mib_hundredths(net_io_rate(stats))) + " MB/s (threshold: "@
            + spec_hundredths(mib_hundredths(threshold_bytes_per_sec as int)) + " MB/s)"@,
        MisbehaviorCondition::TooManyThreads { threshold } => "Threads: "@ + spec_dec(
            stats.num_threads as int,
        ) + " (threshold: "@ + spec_dec(threshold as int) + ")"@,
        MisbehaviorCondition::ZombieProcess => "Process is in zombie state"@,
        MisbehaviorCondition::HighDiskWrites { threshold_bytes_per_sec, .. } => "Disk writes: "@
            + spec_hundredths(mib_hundredths(disk_write_rate(stats))) + " MB/s (threshold: "@
            + spec_hundredths(mib_hundredths(threshold_bytes_per_sec as int)) + " MB/s)"@,
    }
}

/// Whether an alert is the one owed to `r` firing on `snap` at `now`.
pub open spec fn alert_matches(
    a: MisbehaviorAlert,
    r: MisbehaviorRule,
    snap: ProcessSnapshot,
    now: int,
) -> bool {
    &&& a.pid == snap.info.pid
    &&& a.process_name@ == snap.info.name@
    &&& a.rule_name@ == r.name@
    &&& a.description@ == r.description@
    &&& a.severity == r.severity
    &&& a.timestamp_secs as int == now
    &&& a.details@ == spec_details(r.condition, snap.stats)
}

/// Whether `alerts` is exactly one matching alert per fired rule, in order.
pub open spec fn alerts_match(
    alerts: Seq<MisbehaviorAlert>,
    fired: Seq<MisbehaviorRule>,
    snap: ProcessSnapshot,
    now: int,
) -> bool {
    &&& alerts.len() == fired.len()
    &&& forall|j: int|
        0 <= j < alerts.len() ==> alert_matches(#[trigger] alerts[j], fired[j], snap, now)
}

/// No process id owns two history entries.
pub open spec fn keys_distinct(s: Seq<(u32, Vec<ViolationRecord>)>) -> bool {
    forall|i: int, j: int|
        0 <= i < j < s.len() ==> (#[trigger] s[i]).0 != (#[trigger] s[j]).0
}

/// The history entries as a map from process id to record models.
pub open spec fn entries_model(s: Seq<(u32, Vec<ViolationRecord>)>) -> Map<
    u32,
    Seq<(Seq<char>, int)>,
>
    decreases s.len(),
{
    if s.len() == 0 {
        Map::empty()
    } else {
        entries_model(s.drop_last()).insert(s.last().0, recs_model(s.last().1@))
    }
}

proof fn lemma_entries_model_index(s: Seq<(u32, Vec<ViolationRecord>)>, i: int)
    requires
        keys_distinct(s),
        0 <= i < s.len(),
    ensures
        entries_model(s).dom().contains(s[i].0),
        entries_model(s)[s[i].0] == recs_model(s[i].1@),
    decreases s.len(),
{
    if i < s.len() - 1 {
        assert(keys_distinct(s.drop_last()));
        assert(s.drop_last()[i] == s[i]);
        lemma_entries_model_index(s.drop_last(), i);
        assert(s.last().0 != s[i].0);
    }
}

proof fn lemma_entries_model_absent(s: Seq<(u32, Vec<ViolationRecord>)>, pid: u32)
    requires
        forall|j: int| 0 <= j < s.len() ==> (#[trigger] s[j]).0 != pid,
    ensures
        !entries_model(s).dom().contains(pid),
    decreases s.len(),
{
    if s.len() > 0 {
        assert(s.last() == s[s.len() - 1]);
        lemma_entries_model_absent(s.drop_last(), pid);
    }
}

proof fn lemma_entries_model_remove(s: Seq<(u32, Vec<ViolationRecord>)>, i: int)
    requires
        keys_distinct(s),
        0 <= i < s.len(),
    ensures
        entries_model(s.remove(i)) == entries_model(s).remove(s[i].0),
    decreases s.len(),
{
    if i == s.len() - 1 {
        assert(s.remove(i) =~= s.drop_last());
        assert(forall|j: int|
            0 <= j < s.drop_last().len() ==> (#[trigger] s.drop_last()[j]).0 != s[i].0);
        lemma_entries_model_absent(s.drop_last(), s[i].0);
        assert(entries_model(s.drop_last()) =~= entries_model(s).remove(s[i].0));
    } else {
        assert(keys_distinct(s.drop_last()));
        assert(s.drop_last()[i] == s[i]);
        lemma_entries_model_remove(s.drop_last(), i);
        assert(s.remove(i).drop_last() =~= s.drop_last().remove(i));
        assert(s.remove(i).last() == s.last());
        assert(s.last().0 != s[i].0);
        assert(entries_model(s.remove(i)) =~= entries_model(s).remove(s[i].0));
    }
}

impl MisbehaviorDetector {
    /// The registered rules, in registration order.
    pub closed spec fn spec_rules(&self) -> Seq<MisbehaviorRule> {
        self.rules@
    }

    /// The per-process violation histories as a map of record models.
    pub closed spec fn history(&self) -> Map<u32, Seq<(Seq<char>, int)>> {
        entries_model(self.violation_history@)
    }

    /// Well-formed: at most one history entry per process id.
    pub closed spec fn wf(&self) -> bool {
        keys_distinct(self.violation_history@)
    }

    fn find_history_index(&self, pid: u32) -> (r: Option<usize>)
        ensures
            match r {
                Some(i) => i < self.violation_history@.len() && self.violation_history@[
                    i as int
                ].0 == pid,
                None => forall|j: int|
                    0 <= j < self.violation_history@.len() ==> (#[trigger] self.violation_history@[
                        j
                    ]).0 != pid,
            },
    {
        let n = self.violation_history.len();
        let mut i: usize = 0;
        while i < n
            invariant
                i <= n,
                n == self.violation_history@.len(),
                forall|j: int|
                    0 <= j < i ==> (#[trigger] self.violation_history@[j]).0 != pid,
            decreases n - i,
        {
            if self.violation_history[i].0 == pid {
                return Some(i);
            }
            i = i + 1;
        }
        None
    }

    /// Append a record of `rule_name` at `now`, retain only this rule's
    /// records inside the window, and report whether the retained span has
    /// reached the window.
    fn record_violation(
        &mut self,
        pid: u32,
        rule_name: &String,
        duration_secs: u64,
        now: i64,
    ) -> (fired: bool)
        requires
            old(self).wf(),
        ensures
            final(self).wf(),
            final(self).spec_rules() == old(self).spec_rules(),
            final(self).history() == old(self).history().insert(
                pid,
                track_step(
                    hist_at(old(self).history(), pid),
                    rule_name@,
                    duration_secs as int,
                    now as int,
                ),
            ),
            fired == track_fires(
                hist_at(old(self).history(), pid),
                rule_name@,
                duration_secs as int,
                now as int,
            ),
    {
        let ghost v0 = self.violation_history@;
        let ghost h0 = entries_model(v0);
        let ghost recs0 = hist_at(h0, pid);
        let idx = self.find_history_index(pid);
        let mut recs: Vec<ViolationRecord>;
        match idx {
            Some(i) => {
                proof {
                    lemma_entries_model_index(v0, i as int);
                    lemma_entries_model_remove(v0, i as int);
                }
                let entry = self.violation_history.remove(i);
                recs = entry.1;
            }
            None => {
                proof {
                    lemma_entries_model_absent(v0, pid);
                    assert(recs_model(Seq::<ViolationRecord>::empty()) =~= Seq::<
                        (Seq<char>, int),
                    >::empty());
                }
                recs = Vec::new();
            }
        }
        let ghost recs_before = recs@;
        proof {
            assert(recs_model(recs_before) == recs0);
        }
        recs.push(ViolationRecord { rule_name: rule_name.clone(), timestamp_secs: now });
        proof {
            assert(recs_model(recs@) =~= recs0.push((rule_name@, now as int)));
        }
        let kept = prune_records(&recs, rule_name, duration_secs, now);
        proof {
            assert(recs_model(kept@) == track_step(
                recs0,
                rule_name@,
                duration_secs as int,
                now as int,
            ));
            lemma_track_step_shape(recs0, rule_name@, duration_secs as int, now as int);
            assert(recs_model(kept@).len() == kept@.len());
        }
        let fired: bool;
        if kept.len() > 0 {
            let span_reached = now as i128 - kept[0].timestamp_secs as i128
                >= duration_secs as i128;
            proof {
                assert(rec_model(kept@[0]) == recs_model(kept@)[0]);
            }
            fired = span_reached;
        } else {
            fired = false;
        }
        let ghost v1 = self.violation_history@;
        self.violation_history.push((pid, kept));
        proof {
            assert(self.violation_history@.drop_last() =~= v1);
            match idx {
                Some(i) => {
                    assert(v1 == v0.remove(i as int));
                    assert(entries_model(v1) == h0.remove(pid));
                    assert(entries_model(self.violation_history@) =~= h0.insert(
                        pid,
                        recs_model(self.violation_history@.last().1@),
                    ));
                    assert(forall|j: int|
                        0 <= j < v1.len() ==> (#[trigger] v1[j]).0 != pid);
                }
                None => {
                    assert(entries_model(self.violation_history@) =~= h0.insert(
                        pid,
                        recs_model(self.violation_history@.last().1@),
                    ));
                }
            }
            assert(keys_distinct(self.violation_history@));
        }
        fired
    }

    /// Wipe this rule's records for one process: an observed-false tick of
    /// a duration-bearing condition restarts the rule's window from zero.
    fn clear_violations(&mut self, pid: u32, rule_name: &String)
        requires
            old(self).wf(),
        ensures
            final(self).wf(),
            final(self).spec_rules() == old(self).spec_rules(),
            final(self).history() == if old(self).history().dom().contains(pid) {
                old(self).history().insert(
                    pid,
                    clear_rule(old(self).history()[pid], rule_name@),
                )
            } else {
                old(self).history()
            },
    {
        let ghost v0 = self.violation_history@;
        let ghost h0 = entries_model(v0);
        let idx = self.find_history_index(pid);
        match idx {
            Some(i) => {
                proof {
                    lemma_entries_model_index(v0, i as int);
                    lemma_entries_model_remove(v0, i as int);
                }
                let entry = self.violation_history.remove(i);
                let kept = clear_records(&entry.1, rule_name);
                let ghost v1 = self.violation_history@;
                self.violation_history.push((pid, kept));
                proof {
                    assert(self.violation_history@.drop_last() =~= v1);
                    assert(v1 == v0.remove(i as int));
                    assert(entries_model(v1) == h0.remove(pid));
                    assert(entries_model(self.violation_history@) =~= h0.insert(
                        pid,
                        recs_model(kept@),
                    ));
                    assert(forall|j: int|
                        0 <= j < v1.len() ==> (#[trigger] v1[j]).0 != pid);
                    assert(keys_distinct(self.violation_history@));
                }
            }
            None => {
                proof {
                    lemma_entries_model_absent(v0, pid);
                }
            }
        }
    }

    /// Evaluate one rule's condition against the snapshot, driving the
    /// tracker for duration-bearing conditions.
    fn check_rule(
        &mut self,
        snapshot: &ProcessSnapshot,
        rule_name: &String,
        condition: &MisbehaviorCondition,
        now: i64,
    ) -> (fired: bool)
        requires
            old(self).wf(),
        ensures
            final(self).wf(),
            final(self).spec_rules() == old(self).spec_rules(),
            final(self).history() == hist_after_rule(
                old(self).history(),
                snapshot.info.pid,
                rule_name@,
                *condition,
                *snapshot,
                now as int,
            ),
            fired == rule_fires(
                hist_at(old(self).history(), snapshot.info.pid),
                rule_name@,
                *condition,
                *snapshot,
                now as int,
            ),
    {
        match *condition {
            MisbehaviorCondition::CpuUsageAbove { threshold_tenths, duration_secs } => {
                if snapshot.stats.cpu_usage_tenths as u64 > threshold_tenths {
                    self.record_violation(snapshot.info.pid, rule_name, duration_secs, now)
                } else {
                    self.clear_violations(snapshot.info.pid, rule_name);
                    false
                }
            }
            MisbehaviorCondition::MemoryUsageAbove { threshold_bytes, duration_secs } => {
                if snapshot.stats.memory_usage > threshold_bytes {
                    self.record_violation(snapshot.info.pid, rule_name, duration_secs, now)
                } else {
                    self.clear_violations(snapshot.info.pid, rule_name);
                    false
                }
            }
            MisbehaviorCondition::MemoryPercentAbove { threshold_tenths, duration_secs } => {
                if snapshot.stats.memory_percent_tenths as u64 > threshold_tenths {
                    self.record_violation(snapshot.info.pid, rule_name, duration_secs, now)
                } else {
                    self.clear_violations(snapshot.info.pid, rule_name);
                    false
                }
            }
            MisbehaviorCondition::DiskIoAbove { threshold_bytes_per_sec, duration_secs } => {
                let rate = disk_io_rate_u128(&snapshot.stats);
                if rate > threshold_bytes_per_sec as u128 {
                    self.record_violation(snapshot.info.pid, rule_name, duration_secs, now)
                } else {
                    self.clear_violations(snapshot.info.pid, rule_name);
                    false
                }
            }
            MisbehaviorCondition::NetworkIoAbove { threshold_bytes_per_sec, duration_secs } => {
                let rate = net_io_rate_u128(&snapshot.stats);
                if rate > threshold_bytes_per_sec as u128 {
                    self.record_violation(snapshot.info.pid, rule_name, duration_secs, now)
                } else {
                    self.clear_violations(snapshot.info.pid, rule_name);
                    false
                }
            }
            MisbehaviorCondition::TooManyThreads { threshold } => {
                snapshot.stats.num_threads > threshold
            }
            MisbehaviorCondition::ZombieProcess => {
                match snapshot.info.status {
                    crate::process::ProcessStatus::Zombie => true,
                    _ => false,
                }
            }
            MisbehaviorCondition::HighDiskWrites { threshold_bytes_per_sec, duration_secs } => {
                let rate = disk_write_rate_u128(&snapshot.stats);
                if rate > threshold_bytes_per_sec as u128 {
                    self.record_violation(snapshot.info.pid, rule_name, duration_secs, now)
                } else {
                    self.clear_violations(snapshot.info.pid, rule_name);
                    false
                }
            }
        }
    }

    /// Render the condition-specific detail line for an alert.
    fn get_violation_details(
        &self,
        snapshot: &ProcessSnapshot,
        condition: &MisbehaviorCondition,
    ) -> (s: String)
        ensures
            s@ == spec_details(*condition, snapshot.stats),
    {
        match *condition {
            MisbehaviorCondition::CpuUsageAbove { threshold_tenths, .. } => {
                let mut s = "CPU usage: ".to_owned();
                s.append(tenths_string(snapshot.stats.cpu_usage_tenths as u64).as_str());
                s.append("% (threshold: ");
                s.append(tenths_string(threshold_tenths).as_str());
                s.append("%)");
                proof {
                    assert(s@ =~= spec_details(*condition, snapshot.stats));
                }
                s
            }
            MisbehaviorCondition::MemoryUsageAbove { threshold_bytes, .. } => {
                let mut s = "Memory usage: ".to_owned();
                s.append(hundredths_string(gib_hundredths_u64(snapshot.stats.memory_usage)).as_str());
                s.append(" GB (threshold: ");
                s.append(hundredths_string(gib_hundredths_u64(threshold_bytes)).as_str());
                s.append(" GB)");
                proof {
                    assert(s@ =~= spec_details(*condition, snapshot.stats));
                }
                s
            }
            MisbehaviorCondition::MemoryPercentAbove { threshold_tenths, .. } => {
                let mut s = "Memory usage: ".to_owned();
                s.append(tenths_string(snapshot.stats.memory_percent_tenths as u64).as_str());
                s.append("% (threshold: ");
                s.append(tenths_string(threshold_tenths).as_str());
                s.append("%)");
                proof {
                    assert(s@ =~= spec_details(*condition, snapshot.stats));
                }
                s
            }
            MisbehaviorCondition::DiskIoAbove { threshold_bytes_per_sec, .. } => {
                let rate = disk_io_rate_u128(&snapshot.stats);
                let mut s = "Disk I/O: ".to_owned();
                s.append(hundredths_string(mib_hundredths_u128(rate)).as_str());
                s.append(" MB/s (threshold: ");
                s.append(hundredths_string(mib_hundredths_u128(threshold_bytes_per_sec as u128)).as_str());
                s.append(" MB/s)");
                proof {
                    assert(s@ =~= spec_details(*condition, snapshot.stats));
                }
                s
            }
            MisbehaviorCondition::NetworkIoAbove { threshold_bytes_per_sec, .. } => {
                let rate = net_io_rate_u128(&snapshot.stats);
                let mut s = "Network I/O: ".to_owned();
                s.append(hundredths_string(mib_hundredths_u128(rate)).as_str());
                s.append(" MB/s (threshold: ");
                s.append(hundredths_string(mib_hundredths_u128(threshold_bytes_per_sec as u128)).as_str());
                s.append(" MB/s)");
                proof {
                    assert(s@ =~= spec_details(*condition, snapshot.stats));
                }
                s
            }
            MisbehaviorCondition::TooManyThreads { threshold } => {
                let mut s = "Threads: ".to_owned();
                s.append(dec_u64(snapshot.stats.num_threads as u64).as_str());
                s.append(" (threshold: ");
                s.append(dec_u64(threshold as u64).as_str());
                s.append(")");
                proof {
                    assert(s@ =~= spec_details(*condition, snapshot.stats));
                }
                s
            }
            MisbehaviorCondition::ZombieProcess => {
                let s = "Process is in zombie state".to_owned();
                s
            }
            MisbehaviorCondition::HighDiskWrites { threshold_bytes_per_sec, .. } => {
                let rate = disk_write_rate_u128(&snapshot.stats);
                let mut s = "Disk writes: ".to_owned();
                s.append(hundredths_string(mib_hundredths_u128(rate)).as_str());
                s.append(" MB/s (threshold: ");
                s.append(hundredths_string(mib_hundredths_u128(threshold_bytes_per_sec as u128)).as_str());
                s.append(" MB/s)");
                proof {
                    assert(s@ =~= spec_details(*condition, snapshot.stats));
                }
                s
            }
        }
    }
}

/// What one whole-tick evaluation did, at clock reading `now`: the history
/// evolved through every rule in order, and one matching alert was emitted
/// per fired rule.
pub open spec fn check_process_post(
    pre: MisbehaviorDetector,
    post: MisbehaviorDetector,
    snap: ProcessSnapshot,
    alerts: Seq<MisbehaviorAlert>,
    now: i64,
) -> bool {
    &&& post.history() == hist_after_first(
        pre.history(),
        pre.spec_rules(),
        pre.spec_rules().len() as int,
        snap,
        now as int,
    )
    &&& alerts_match(
        alerts,
        fired_first(
            pre.history(),
            pre.spec_rules(),
            pre.spec_rules().len() as int,
            snap,
            now as int,
        ),
        snap,
        now as int,
    )
}

/// The six compiled-in policy defaults, exactly.
pub open spec fn default_rules_ok(s: Seq<MisbehaviorRule>) -> bool {
    &&& s.len() == 6
    &&& s[0].name@ == "High CPU Usage"@
    &&& s[0].description@ == "Process using more than 80% CPU for extended period"@
    &&& s[0].condition == (MisbehaviorCondition::CpuUsageAbove {
        threshold_tenths: 800u64,
        duration_secs: 60u64,
    })
    &&& s[0].severity == Severity::Warning
    &&& s[1].name@ == "Extreme CPU Usage"@
    &&& s[1].description@ == "Process using more than 95% CPU"@
    &&& s[1].condition == (MisbehaviorCondition::CpuUsageAbove {
        threshold_tenths: 950u64,
        duration_secs: 10u64,
    })
    &&& s[1].severity == Severity::Critical
    &&& s[2].name@ == "High Memory Usage"@
    &&& s[2].description@ == "Process using more than 2GB of RAM"@
    &&& s[2].condition == (MisbehaviorCondition::MemoryUsageAbove {
        threshold_bytes: 0x80000000u64,
        duration_secs: 30u64,
    })
    &&& s[2].severity == Severity::Warning
    &&& s[3].name@ == "Memory Leak Suspected"@
    &&& s[3].description@ == "Process using more than 8GB of RAM"@
    &&& s[3].condition == (MisbehaviorCondition::MemoryUsageAbove {
        threshold_bytes: 0x200000000u64,
        duration_secs: 10u64,
    })
    &&& s[3].severity == Severity::Critical
    &&& s[4].name@ == "Zombie Process"@
    &&& s[4].description@ == "Process is in zombie state"@
    &&& s[4].condition == MisbehaviorCondition::ZombieProcess
    &&& s[4].severity == Severity::Warning
    &&& s[5].name@ == "High Disk I/O"@
    &&& s[5].description@ == "Process performing excessive disk operations"@
    &&& s[5].condition == (MisbehaviorCondition::DiskIoAbove {
        threshold_bytes_per_sec: 0x6400000u64,
        duration_secs: 60u64,
    })
    &&& s[5].severity == Severity::Warning
}

/// An instantaneous condition bypasses the tracker entirely: it fires
/// exactly when the snapshot shows it, whatever the history holds, and it
/// leaves the history untouched.
pub proof fn lemma_instantaneous_bypasses_tracker(
    h: Map<u32, Seq<(Seq<char>, int)>>,
    recs: Seq<(Seq<char>, int)>,
    pid: u32,
    name: Seq<char>,
    c: MisbehaviorCondition,
    snap: ProcessSnapshot,
    now: int,
)
    requires
        cond_duration(c) is None,
    ensures
        rule_fires(recs, name, c, snap, now) == cond_observed(c, snap),
        hist_after_rule(h, pid, name, c, snap, now) == h,
{
}

/// The zombie-state condition alerts exactly on ticks where the snapshot's
/// status is `Zombie`, regardless of any history.
pub proof fn lemma_zombie_alerts_iff_zombie(
    h: Map<u32, Seq<(Seq<char>, int)>>,
    recs: Seq<(Seq<char>, int)>,
    pid: u32,
    name: Seq<char>,
    snap: ProcessSnapshot,
    now: int,
)
    ensures
        rule_fires(recs, name, MisbehaviorCondition::ZombieProcess, snap, now) == (
        snap.info.status is Zombie),
        hist_after_rule(h, pid, name, MisbehaviorCondition::ZombieProcess, snap, now) == h,
{
}

impl MisbehaviorDetector {
    fn default_rules() -> (r: Vec<MisbehaviorRule>)
        ensures
            default_rules_ok(r@),
    {
        let mut r: Vec<MisbehaviorRule> = Vec::new();
        r.push(MisbehaviorRule {
            name: "High CPU Usage".to_owned(),
            description: "Process using more than 80% CPU for extended period".to_owned(),
            condition: MisbehaviorCondition::CpuUsageAbove {
                threshold_tenths: 800,
                duration_secs: 60,
            },
            severity: Severity::Warning,
        });
        r.push(MisbehaviorRule {
            name: "Extreme CPU Usage".to_owned(),
            description: "Process using more than 95% CPU".to_owned(),
            condition: MisbehaviorCondition::CpuUsageAbove {
                threshold_tenths: 950,
                duration_secs: 10,
            },
            severity: Severity::Critical,
        });
        r.push(MisbehaviorRule {
            name: "High Memory Usage".to_owned(),
            description: "Process using more than 2GB of RAM".to_owned(),
            condition: MisbehaviorCondition::MemoryUsageAbove {
                threshold_bytes: 0x80000000,
                duration_secs: 30,
            },
            severity: Severity::Warning,
        });
        r.push(MisbehaviorRule {
            name: "Memory Leak Suspected".to_owned(),
            description: "Process using more than 8GB of RAM".to_owned(),
            condition: MisbehaviorCondition::MemoryUsageAbove {
                threshold_bytes: 0x200000000,
                duration_secs: 10,
            },
            severity: Severity::Critical,
        });
        r.push(MisbehaviorRule {
            name: "Zombie Process".to_owned(),
            description: "Process is in zombie state".to_owned(),
            condition: MisbehaviorCondition::ZombieProcess,
            severity: Severity::Warning,
        });
        r.push(MisbehaviorRule {
            name: "High Disk I/O".to_owned(),
            description: "Process performing excessive disk operations".to_owned(),
            condition: MisbehaviorCondition::DiskIoAbove {
                threshold_bytes_per_sec: 0x6400000,
                duration_secs: 60,
            },
            severity: Severity::Warning,
        });
        r
    }

    /// A detector with the compiled-in default rules and no history.
    pub fn new() -> (d: Self)
        ensures
            d.wf(),
            default_rules_ok(d.spec_rules()),
            d.history() == Map::<u32, Seq<(Seq<char>, int)>>::empty(),
    {
        let d = Self { rules: Self::default_rules(), violation_history: Vec::new() };
        proof {
            assert(d.history() =~= Map::<u32, Seq<(Seq<char>, int)>>::empty());
        }
        d
    }

    /// A detector with the given rules in place of the defaults.
    pub fn with_rules(rules: Vec<MisbehaviorRule>) -> (d: Self)
        ensures
            d.wf(),
            d.spec_rules() == rules@,
            d.history() == Map::<u32, Seq<(Seq<char>, int)>>::empty(),
    {
        let d = Self { rules, violation_history: Vec::new() };
        proof {
            assert(d.history() =~= Map::<u32, Seq<(Seq<char>, int)>>::empty());
        }
        d
    }

    /// Append one rule; the rule set is append-only and never deduplicated.
    pub fn add_rule(&mut self, rule: MisbehaviorRule)
        requires
            old(self).wf(),
        ensures
            final(self).wf(),
            final(self).spec_rules() == old(self).spec_rules().push(rule),
            final(self).history() == old(self).history(),
    {
        self.rules.push(rule);
    }

    /// Read-only view of the registered rules, in registration order.
    pub fn get_rules(&self) -> (r: &[MisbehaviorRule])
        ensures
            r@ == self.spec_rules(),
    {
        self.rules.as_slice()
    }

    /// Evaluate every rule against one snapshot taken at clock reading
    /// `now`, returning one alert per fired rule, in rule order.
    pub fn check_process_at(&mut self, snapshot: &ProcessSnapshot, now: i64) -> (alerts: Vec<
        MisbehaviorAlert,
    >)
        requires
            old(self).wf(),
        ensures
            final(self).wf(),
            final(self).spec_rules() == old(self).spec_rules(),
            check_process_post(*old(self), *final(self), *snapshot, alerts@, now),
    {
        let ghost rules0 = self.spec_rules();
        let ghost h0map = self.history();
        let mut alerts: Vec<MisbehaviorAlert> = Vec::new();
        let n = self.rules.len();
        let mut i: usize = 0;
        while i < n
            invariant
                i <= n,
                n == rules0.len(),
                self.wf(),
                self.spec_rules() == rules0,
                self.history() == hist_after_first(
                    h0map,
                    rules0,
                    i as int,
                    *snapshot,
                    now as int,
                ),
                alerts_match(
                    alerts@,
                    fired_first(h0map, rules0, i as int, *snapshot, now as int),
                    *snapshot,
                    now as int,
                ),
            decreases n - i,
        {
            let rule = &self.rules[i];
            let name = rule.name.clone();
            let cond = rule.condition;
            let sev = rule.severity;
            let desc = rule.description.clone();
            let ghost h_i = self.history();
            proof {
                assert(name == rules0[i as int].name);
                assert(cond == rules0[i as int].condition);
            }
            let fired = self.check_rule(snapshot, &name, &cond, now);
            proof {
                assert(self.history() == hist_after_first(
                    h0map,
                    rules0,
                    i + 1,
                    *snapshot,
                    now as int,
                ));
                assert(fired == rule_fires(
                    hist_at(h_i, snapshot.info.pid),
                    rules0[i as int].name@,
                    rules0[i as int].condition,
                    *snapshot,
                    now as int,
                ));
            }
            let ghost fprev = fired_first(h0map, rules0, i as int, *snapshot, now as int);
            let ghost aprev = alerts@;
            if fired {
                let details = self.get_violation_details(snapshot, &cond);
                let alert = MisbehaviorAlert {
                    pid: snapshot.info.pid,
                    process_name: snapshot.info.name.clone(),
                    rule_name: name,
                    description: desc,
                    severity: sev,
                    timestamp_secs: now,
                    details,
                };
                proof {
                    assert(alert_matches(alert, rules0[i as int], *snapshot, now as int));
                }
                alerts.push(alert);
                proof {
                    assert(fired_first(h0map, rules0, i + 1, *snapshot, now as int) == fprev.push(
                        rules0[i as int],
                    ));
                    assert forall|j: int| 0 <= j < alerts@.len() implies alert_matches(
                        #[trigger] alerts@[j],
                        fired_first(h0map, rules0, i + 1, *snapshot, now as int)[j],
                        *snapshot,
                        now as int,
                    ) by {
                        if j < aprev.len() {
                            assert(alerts@[j] == aprev[j]);
                            assert(alert_matches(aprev[j], fprev[j], *snapshot, now as int));
                        }
                    };
                }
            } else {
                proof {
                    assert(fired_first(h0map, rules0, i + 1, *snapshot, now as int) == fprev);
                }
            }
            i = i + 1;
        }
        proof {
            assert(check_process_post(*old(self), *self, *snapshot, alerts@, now));
        }
        alerts
    }

    /// Evaluate every rule against one snapshot, at the current wall-clock
    /// time; the contract holds whatever the clock returned.
    pub fn check_process(&mut self, snapshot: &ProcessSnapshot) -> (alerts: Vec<MisbehaviorAlert>)
        requires
            old(self).wf(),
        ensures
            final(self).wf(),
            final(self).spec_rules() == old(self).spec_rules(),
            exists|now: i64|
                #[trigger] check_process_post(*old(self), *final(self), *snapshot, alerts@, now),
    {
        let now = crate::clock::now_timestamp_secs();
        let alerts = self.check_process_at(snapshot, now);
        proof {
            assert(check_process_post(*old(self), *self, *snapshot, alerts@, now));
        }
        alerts
    }

    /// Drop the whole history of every process absent from `active_pids`;
    /// histories of present processes are kept untouched.
    pub fn cleanup_dead_processes(&mut self, active_pids: &[u32])
        requires
            old(self).wf(),
        ensures
            final(self).wf(),
            final(self).spec_rules() == old(self).spec_rules(),
            final(self).history() == old(self).history().restrict(
                Set::new(|pid: u32| active_pids@.contains(pid)),
            ),
    {
        let ghost rules0 = self.spec_rules();
        let ghost v0 = self.violation_history@;
        let ghost aset = Set::new(|pid: u32| active_pids@.contains(pid));
        let ghost mut k: int = 0;
        let mut kept: Vec<(u32, Vec<ViolationRecord>)> = Vec::new();
        proof {
            assert(entries_model(kept@) =~= entries_model(v0.take(0)).restrict(aset));
        }
        while self.violation_history.len() > 0
            invariant
                0 <= k <= v0.len(),
                self.spec_rules() == rules0,
                aset == Set::new(|pid: u32| active_pids@.contains(pid)),
                keys_distinct(v0),
                self.violation_history@ == v0.skip(k),
                keys_distinct(kept@),
                entries_model(kept@) == entries_model(v0.take(k)).restrict(aset),
            decreases self.violation_history@.len(),
        {
            let entry = self.violation_history.remove(0);
            let keep = contains_pid(active_pids, entry.0);
            proof {
                assert(v0.skip(k)[0] == v0[k]);
                assert(v0.skip(k).remove(0) =~= v0.skip(k + 1));
                assert(v0.take(k + 1).drop_last() =~= v0.take(k));
            }
            if keep {
                proof {
                    assert(forall|j: int|
                        0 <= j < k ==> (#[trigger] v0.take(k)[j]).0 != v0[k].0);
                    lemma_entries_model_absent(v0.take(k), v0[k].0);
                    assert forall|j: int| 0 <= j < kept@.len() implies (#[trigger] kept@[j]).0
                        != v0[k].0 by {
                        if kept@[j].0 == v0[k].0 {
                            lemma_entries_model_index(kept@, j);
                        }
                    };
                }
                let ghost keptpre = kept@;
                kept.push(entry);
                proof {
                    assert(kept@.drop_last() =~= keptpre);
                    assert(entries_model(kept@) =~= entries_model(v0.take(k + 1)).restrict(aset));
                    assert(keys_distinct(kept@));
                    k = k + 1;
                }
            } else {
                proof {
                    assert(entries_model(v0.take(k + 1)).restrict(aset) =~= entries_model(
                        v0.take(k),
                    ).restrict(aset));
                    k = k + 1;
                }
            }
        }
        proof {
            assert(k == v0.len());
            assert(v0.take(k) =~= v0);
        }
        self.violation_history = kept;
    }
}

impl Default for MisbehaviorDetector {
    /// Same as `new`: default rules, no history.
    fn default() -> (d: Self)
        ensures
            d.wf(),
            default_rules_ok(d.spec_rules()),
            d.history() == Map::<u32, Seq<(Seq<char>, int)>>::empty(),
    {
        Self::new()
    }
}

fn contains_pid(pids: &[u32], pid: u32) -> (r: bool)
    ensures
        r == pids@.contains(pid),
{
    let n = pids.len();
    let mut i: usize = 0;
    while i < n
        invariant
            i <= n,
            n == pids@.len(),
            forall|j: int| 0 <= j < i ==> pids@[j] != pid,
        decreases n - i,
    {
        if pids[i] == pid {
            return true;
        }
        i = i + 1;
    }
    false
}

/// Average combined disk rate, computed in wide arithmetic.
fn disk_io_rate_u128(stats: &ProcessStats) -> (r: u128)
    ensures
        r == disk_io_rate(*stats),
        r < 0x20000000000000000,
{
    let total: u128 = stats.disk_read_bytes as u128 + stats.disk_write_bytes as u128;
    let divisor: u128 = if stats.run_time_secs == 0 {
        1
    } else {
        stats.run_time_secs as u128
    };
    let r = total / divisor;
    proof {
        assert(r <= total) by (nonlinear_arith)
            requires r == total / divisor, divisor >= 1, total >= 0;
    }
    r
}

/// Average combined network rate, computed in wide arithmetic.
fn net_io_rate_u128(stats: &ProcessStats) -> (r: u128)
    ensures
        r == net_io_rate(*stats),
        r < 0x20000000000000000,
{
    let total: u128 = stats.network_rx_bytes as u128 + stats.network_tx_bytes as u128;
    let divisor: u128 = if stats.run_time_secs == 0 {
        1
    } else {
        stats.run_time_secs as u128
    };
    let r = total / divisor;
    proof {
        assert(r <= total) by (nonlinear_arith)
            requires r == total / divisor, divisor >= 1, total >= 0;
    }
    r
}

/// Average disk write rate, computed in wide arithmetic.
fn disk_write_rate_u128(stats: &ProcessStats) -> (r: u128)
    ensures
        r == disk_write_rate(*stats),
        r < 0x20000000000000000,
{
    let total: u128 = stats.disk_write_bytes as u128;
    let divisor: u128 = if stats.run_time_secs == 0 {
        1
    } else {
        stats.run_time_secs as u128
    };
    let r = total / divisor;
    proof {
        assert(r <= total) by (nonlinear_arith)
            requires r == total / divisor, divisor >= 1, total >= 0;
    }
    r
}

} // verus!
