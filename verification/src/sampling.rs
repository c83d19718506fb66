//! Turning raw counters into one sample.
//!
//! The agent reads counters off the machine: bytes of memory, bytes of disk,
//! inodes, a GPU's utilisation. A sample holds utilisation readings, so each
//! pair of counters becomes the share that is in use.

use vstd::prelude::*;
use crate::models::{MetricInput, FULL_SCALE, READING_SCALE};

verus! {

/// The share `used` of `total`, as a reading; zero where there is no total.
pub open spec fn usage_of(used: u64, total: u64) -> nat {
    if total == 0 {
        0
    } else {
        (used * FULL_SCALE / (total as int)) as nat
    }
}

/// `value`, or the greatest reading there is if `value` is beyond it.
pub open spec fn capped(value: nat) -> u64 {
    if value > u64::MAX {
        u64::MAX
    } else {
        value as u64
    }
}

/// `total` less `available`, and nothing where more is available than
/// there is.
pub open spec fn used_of(total: u64, available: u64) -> u64 {
    if total >= available {
        (total - available) as u64
    } else {
        0
    }
}

/// The size and the free space of a file system, in bytes.
#[derive(Debug, PartialEq, Eq, Clone, Copy)]
pub struct DiskSpace {
    pub total: u64,
    pub available: u64,
}

/// The number of inodes of a file system, and how many are free.
#[derive(Debug, PartialEq, Eq, Clone, Copy)]
pub struct InodeCount {
    pub total: u64,
    pub free: u64,
}

/// What the agent read off the machine for one sample.
#[derive(Debug, PartialEq, Eq, Clone, Copy)]
pub struct RawSample {
    /// Processor utilisation, already a reading.
    pub cpu_usage: u64,
    pub memory_used: u64,
    pub memory_total: u64,
    /// The root file system, if it was found.
    pub root_disk: Option<DiskSpace>,
    /// The root file system's inodes, if they could be counted.
    pub root_inodes: Option<InodeCount>,
    /// Utilisation of the first GPU in whole percent, if there is a GPU.
    pub gpu_percent: Option<u32>,
    /// The size of the scanned directory as last computed; zero if it has
    /// not been computed yet.
    pub cached_docker_size: u64,
}

/// The disk reading of `raw`: the share of the root file system in use.
pub open spec fn disk_usage_of(raw: RawSample) -> u64 {
    match raw.root_disk {
        Some(disk) => capped(usage_of(used_of(disk.total, disk.available), disk.total)),
        None => 0,
    }
}

/// The inode reading of `raw`: the share of the root file system's inodes
/// in use. Without a root file system there is no inode reading either.
pub open spec fn inode_usage_of(raw: RawSample) -> u64 {
    match (raw.root_disk, raw.root_inodes) {
        (Some(_), Some(inodes)) => capped(
            usage_of(used_of(inodes.total, inodes.free), inodes.total),
        ),
        _ => 0,
    }
}

/// The directory size of `raw`: known once a scan has found anything.
pub open spec fn docker_size_of(raw: RawSample) -> Option<u64> {
    if raw.cached_docker_size > 0 {
        Some(raw.cached_docker_size)
    } else {
        None
    }
}

/// The GPU reading of `raw`.
pub open spec fn gpu_usage_of(raw: RawSample) -> Option<u64> {
    match raw.gpu_percent {
        Some(percent) => Some((percent * READING_SCALE) as u64),
        None => None,
    }
}

/// The sum of `sizes`.
pub open spec fn sum_of(sizes: Seq<u64>) -> nat
    decreases sizes.len(),
{
    if sizes.len() == 0 {
        0
    } else {
        sum_of(sizes.drop_last()) + sizes.last() as nat
    }
}

/// The size of a directory whose files have the sizes `file_sizes`: their
/// sum, or the greatest size there is if the sum is beyond it.
pub fn calculate_dir_size(file_sizes: &Vec<u64>) -> (size: u64)
    ensures
        size == capped(sum_of(file_sizes@)),
{
    let mut size: u64 = 0;
    let mut i: usize = 0;
    proof {
        assert(file_sizes@.take(0) =~= Seq::<u64>::empty());
    }
    while i < file_sizes.len()
        invariant
            i <= file_sizes@.len(),
            size == capped(sum_of(file_sizes@.take(i as int))),
        decreases file_sizes@.len() - i,
    {
        proof {
            assert(file_sizes@.take(i + 1).drop_last() =~= file_sizes@.take(i as int));
            assert(file_sizes@.take(i + 1).last() == file_sizes@[i as int]);
        }
        size = size.saturating_add(file_sizes[i]);
        i += 1;
    }
    proof {
        assert(file_sizes@.take(file_sizes@.len() as int) =~= file_sizes@);
    }
    size
}

/// The share `used` of `total`, as a reading.
pub fn usage_reading(used: u64, total: u64) -> (reading: u64)
    ensures
        reading == capped(usage_of(used, total)),
        used <= total ==> reading <= FULL_SCALE,
{
    if total == 0 {
        return 0;
    }
    proof {
        assert(used * FULL_SCALE <= u64::MAX * 100000) by (nonlinear_arith)
            requires
                0 <= used <= u64::MAX,
                FULL_SCALE == 100000,
        ;
    }
    let scaled: u128 = (used as u128) * (FULL_SCALE as u128);
    let share: u128 = scaled / (total as u128);
    proof {
        if used <= total {
            assert(used * FULL_SCALE / (total as int) <= FULL_SCALE) by (nonlinear_arith)
                requires
                    0 <= used <= total,
                    total > 0,
                    FULL_SCALE == 100000,
            ;
        }
    }
    if share > 0xffff_ffff_ffff_ffff {
        0xffff_ffff_ffff_ffff
    } else {
        share as u64
    }
}

/// A whole percentage as a reading.
pub fn percent_reading(percent: u32) -> (reading: u64)
    ensures
        reading == percent * READING_SCALE,
{
    (percent as u64) * READING_SCALE
}

/// `total` less `available`, and nothing where more is available than
/// there is.
pub fn used_space(total: u64, available: u64) -> (used: u64)
    ensures
        used == used_of(total, available),
{
    if total >= available {
        total - available
    } else {
        0
    }
}

/// The memory reading: the share of memory in use.
pub fn calculate_ram_usage(used: u64, total: u64) -> (reading: u64)
    ensures
        reading == capped(usage_of(used, total)),
{
    usage_reading(used, total)
}

/// The share of the inodes in use.
pub fn calculate_inode_usage(inodes: Option<InodeCount>) -> (reading: u64)
    ensures
        reading == match inodes {
            Some(count) => capped(usage_of(used_of(count.total, count.free), count.total)),
            None => 0,
        },
{
    match inodes {
        Some(count) => usage_reading(used_space(count.total, count.free), count.total),
        None => 0,
    }
}

/// The disk and inode readings of the root file system. Both are zero when
/// the root file system was not found.
pub fn calculate_disk_usage(raw: &RawSample) -> (readings: (u64, u64))
    ensures
        readings.0 == disk_usage_of(*raw),
        readings.1 == inode_usage_of(*raw),
{
    match raw.root_disk {
        Some(disk) => {
            let disk_usage = usage_reading(used_space(disk.total, disk.available), disk.total);
            let inode_usage = calculate_inode_usage(raw.root_inodes);
            (disk_usage, inode_usage)
        },
        None => (0, 0),
    }
}

/// Makes the sample of the moment `timestamp` out of what was read.
pub fn collect_fast(raw: &RawSample, timestamp: String) -> (metric: MetricInput)
    ensures
        metric.cpu_usage == raw.cpu_usage,
        metric.ram_usage == capped(usage_of(raw.memory_used, raw.memory_total)),
        metric.disk_usage == disk_usage_of(*raw),
        metric.inode_usage == inode_usage_of(*raw),
        metric.docker_sz == docker_size_of(*raw),
        metric.gpu_usage == gpu_usage_of(*raw),
        metric.timestamp == timestamp,
{
    let ram_usage = calculate_ram_usage(raw.memory_used, raw.memory_total);
    let (disk_usage, inode_usage) = calculate_disk_usage(raw);
    let gpu_usage = match raw.gpu_percent {
        Some(percent) => Some(percent_reading(percent)),
        None => None,
    };
    let docker_sz = if raw.cached_docker_size > 0 {
        Some(raw.cached_docker_size)
    } else {
        None
    };
    MetricInput {
        cpu_usage: raw.cpu_usage,
        ram_usage,
        disk_usage,
        inode_usage,
        docker_sz,
        gpu_usage,
        timestamp,
    }
}

} // verus!
