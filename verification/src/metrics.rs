//! System-wide counters reported by the sampling layer, and the reading of
//! per-device I/O counters out of the kernel's disk-statistics lines.

use vstd::prelude::*;
use crate::parse::{all_digits, parse_u64_dec, spec_dec_val};
use crate::text::{split_whitespace_fields, split_ws, starts_with, str_starts_with, views_of};

verus! {

/// Cumulative traffic counters of one network interface.
#[derive(Debug, Clone)]
pub struct NetworkMetrics {
    pub interface_name: String,
    pub bytes_sent: u64,
    pub bytes_received: u64,
    pub packets_sent: u64,
    pub packets_received: u64,
    pub errors_in: u64,
    pub errors_out: u64,
}

/// Cumulative I/O counters of one block device.
#[derive(Debug, Clone)]
pub struct DiskIoMetrics {
    pub device_name: String,
    pub read_bytes: u64,
    pub write_bytes: u64,
    pub read_ops: u64,
    pub write_ops: u64,
}

/// Identity and transfer counter of one USB device.
#[derive(Debug, Clone)]
pub struct UsbIoMetrics {
    pub device_id: String,
    pub device_name: String,
    pub vendor_id: u16,
    pub product_id: u16,
    pub bytes_transferred: u64,
}

/// Memory occupancy of the whole machine, in bytes.
#[derive(Debug, Clone, Copy)]
pub struct MemoryMetrics {
    pub total: u64,
    pub used: u64,
    pub available: u64,
    pub swap_total: u64,
    pub swap_used: u64,
}

impl Default for MemoryMetrics {
    fn default() -> (r: Self)
        ensures
            r.total == 0,
            r.used == 0,
            r.available == 0,
            r.swap_total == 0,
            r.swap_used == 0,
    {
        Self { total: 0, used: 0, available: 0, swap_total: 0, swap_used: 0 }
    }
}

/// The counter a disk-statistics field denotes, zero if it is no number.
pub open spec fn spec_counter(s: Seq<char>) -> int {
    if s.len() > 0 && all_digits(s) && spec_dec_val(s) <= u64::MAX {
        spec_dec_val(s)
    } else {
        0
    }
}

/// A sector count as bytes (512 bytes a sector), saturated at `u64::MAX`.
pub open spec fn spec_sector_bytes(sectors: int) -> int {
    if sectors * 512 > u64::MAX {
        u64::MAX as int
    } else {
        sectors * 512
    }
}

/// What one disk-statistics line denotes: device name, read and write
/// counters in operations and bytes. Lines with fewer than fourteen fields
/// and the kernel's loopback and ramdisk devices denote nothing.
pub open spec fn spec_diskstats_line(line: Seq<char>) -> Option<(Seq<char>, int, int, int, int)> {
    let fs = split_ws(line);
    if fs.len() < 14 {
        None
    } else if starts_with(fs[2], "loop"@) || starts_with(fs[2], "ram"@) {
        None
    } else {
        Some(
            (
                fs[2],
                spec_sector_bytes(spec_counter(fs[5])),
                spec_sector_bytes(spec_counter(fs[9])),
                spec_counter(fs[3]),
                spec_counter(fs[7]),
            ),
        )
    }
}

/// Read one disk-statistics line into per-device counters, exactly as
/// `spec_diskstats_line` says: read bytes, written bytes, read operations,
/// write operations.
pub fn parse_diskstats_line(line: &str) -> (r: Option<DiskIoMetrics>)
    ensures
        match r {
            Some(m) => spec_diskstats_line(line@) == Some(
                (
                    m.device_name@,
                    m.read_bytes as int,
                    m.write_bytes as int,
                    m.read_ops as int,
                    m.write_ops as int,
                ),
            ),
            None => spec_diskstats_line(line@) is None,
        },
{
    let fields = split_whitespace_fields(line);
    proof {
        assert(views_of(fields@).len() == fields@.len());
    }
    if fields.len() < 14 {
        return None;
    }
    let device = &fields[2];
    if str_starts_with(device.as_str(), "loop") || str_starts_with(device.as_str(), "ram") {
        return None;
    }
    let read_ops = counter_field(&fields[3]);
    let read_sectors = counter_field(&fields[5]);
    let write_ops = counter_field(&fields[7]);
    let write_sectors = counter_field(&fields[9]);
    Some(
        DiskIoMetrics {
            device_name: device.clone(),
            read_bytes: sector_bytes(read_sectors),
            write_bytes: sector_bytes(write_sectors),
            read_ops,
            write_ops,
        },
    )
}

fn counter_field(s: &String) -> (v: u64)
    ensures
        v as int == spec_counter(s@),
{
    match parse_u64_dec(s.as_str()) {
        Some(v) => v,
        None => 0,
    }
}

fn sector_bytes(sectors: u64) -> (b: u64)
    ensures
        b as int == spec_sector_bytes(sectors as int),
{
    let wide: u128 = sectors as u128 * 512;
    if wide > u64::MAX as u128 {
        u64::MAX
    } else {
        wide as u64
    }
}

} // verus!
