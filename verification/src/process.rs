//! Process identity, point-in-time statistics, and snapshots.
//!
//! Percentages are carried as tenths of a percent and times as whole
//! seconds, so that threshold comparisons and span arithmetic are exact.

use vstd::prelude::*;
use crate::clock;
use crate::parse::{all_digits, parse_u32_dec, spec_dec_val};
use crate::text::{
    split_on_char, split_sep, split_whitespace_fields, split_ws, starts_with, str_starts_with,
    views_of,
};

verus! {

/// Scheduling state of a process at sampling time.
#[derive(Debug, Clone, Copy, PartialEq, Eq, Structural)]
pub enum ProcessStatus {
    Running,
    Sleeping,
    Stopped,
    Zombie,
    Dead,
    Unknown,
}

/// Identity of one process.
#[derive(Debug, Clone)]
pub struct ProcessInfo {
    pub pid: u32,
    pub name: String,
    pub user: String,
    pub uid: u32,
    pub exe_path: Option<String>,
    pub command_line: Vec<String>,
    pub status: ProcessStatus,
    pub parent_pid: Option<u32>,
}

/// Resource counters of one process at sampling time. Byte counters are
/// cumulative since process start; `run_time_secs` is the cumulative run
/// time, from which rate-style figures are derived.
#[derive(Debug, Clone, Copy)]
pub struct ProcessStats {
    pub pid: u32,
    pub cpu_usage_tenths: u32,
    pub memory_usage: u64,
    pub memory_percent_tenths: u32,
    pub virtual_memory: u64,
    pub disk_read_bytes: u64,
    pub disk_write_bytes: u64,
    pub network_rx_bytes: u64,
    pub network_tx_bytes: u64,
    pub num_threads: u32,
    pub start_time_secs: i64,
    pub run_time_secs: u64,
}

/// Immutable record of one process at one sampling instant.
#[derive(Debug, Clone)]
pub struct ProcessSnapshot {
    pub info: ProcessInfo,
    pub stats: ProcessStats,
    pub timestamp_secs: i64,
}

impl ProcessInfo {
    /// A process known only by its identity, with empty auxiliary fields.
    pub fn new(pid: u32, name: String, user: String, uid: u32) -> (r: Self)
        ensures
            r.pid == pid,
            r.name == name,
            r.user == user,
            r.uid == uid,
            r.exe_path is None,
            r.command_line@ =~= Seq::<String>::empty(),
            r.status is Unknown,
            r.parent_pid is None,
    {
        Self {
            pid,
            name,
            user,
            uid,
            exe_path: None,
            command_line: Vec::new(),
            status: ProcessStatus::Unknown,
            parent_pid: None,
        }
    }
}

/// What the owner line of a kernel process-status report denotes: the
/// second field of a line beginning `Uid:` names the real user id.
pub open spec fn spec_uid_line(line: Seq<char>) -> Option<int> {
    if !starts_with(line, "Uid:"@) {
        None
    } else {
        let fs = split_ws(line);
        if fs.len() < 2 {
            None
        } else if fs[1].len() > 0 && all_digits(fs[1]) && spec_dec_val(fs[1]) <= u32::MAX {
            Some(spec_dec_val(fs[1]))
        } else {
            None
        }
    }
}

/// Read the real user id out of one line of a process-status report,
/// exactly as `spec_uid_line` says.
pub fn parse_uid_line(line: &str) -> (r: Option<u32>)
    ensures
        match r {
            Some(uid) => spec_uid_line(line@) == Some(uid as int),
            None => spec_uid_line(line@) is None,
        },
{
    if !str_starts_with(line, "Uid:") {
        return None;
    }
    let fields = split_whitespace_fields(line);
    proof {
        assert(views_of(fields@).len() == fields@.len());
    }
    if fields.len() < 2 {
        return None;
    }
    parse_u32_dec(fields[1].as_str())
}

/// What one user-database line says for `uid`: fields are separated by
/// colons; where the third field denotes `uid`, the first is the name.
pub open spec fn spec_passwd_user(line: Seq<char>, uid: int) -> Option<Seq<char>> {
    let fs = split_sep(line, ':');
    if fs.len() < 3 {
        None
    } else if fs[2].len() > 0 && all_digits(fs[2]) && spec_dec_val(fs[2]) == uid {
        Some(fs[0])
    } else {
        None
    }
}

/// Read the user name out of one user-database line, if the line belongs
/// to `uid`, exactly as `spec_passwd_user` says.
pub fn passwd_line_user(line: &str, uid: u32) -> (r: Option<String>)
    ensures
        match r {
            Some(name) => spec_passwd_user(line@, uid as int) == Some(name@),
            None => spec_passwd_user(line@, uid as int) is None,
        },
{
    let fields = split_on_char(line, ':');
    proof {
        assert(views_of(fields@).len() == fields@.len());
    }
    if fields.len() < 3 {
        return None;
    }
    match parse_u32_dec(fields[2].as_str()) {
        Some(v) => if v == uid {
            Some(fields[0].clone())
        } else {
            None
        },
        None => None,
    }
}

impl Default for ProcessStats {
    /// All counters zero; the start time is read from the wall clock.
    fn default() -> (r: Self)
        ensures
            r.pid == 0,
            r.cpu_usage_tenths == 0,
            r.memory_usage == 0,
            r.memory_percent_tenths == 0,
            r.virtual_memory == 0,
            r.disk_read_bytes == 0,
            r.disk_write_bytes == 0,
            r.network_rx_bytes == 0,
            r.network_tx_bytes == 0,
            r.num_threads == 0,
            r.run_time_secs == 0,
    {
        Self {
            pid: 0,
            cpu_usage_tenths: 0,
            memory_usage: 0,
            memory_percent_tenths: 0,
            virtual_memory: 0,
            disk_read_bytes: 0,
            disk_write_bytes: 0,
            network_rx_bytes: 0,
            network_tx_bytes: 0,
            num_threads: 0,
            start_time_secs: clock::now_timestamp_secs(),
            run_time_secs: 0,
        }
    }
}

} // verus!
