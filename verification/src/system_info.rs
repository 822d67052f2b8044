//! The system information probe: processor identity and frequency, total
//! memory and total disk capacity.

use sysinfo::{CpuRefreshKind, MemoryRefreshKind, RefreshKind, System};
use vstd::prelude::*;

verus! {

/// Bytes in one kilobyte, of memory and of disk alike.
pub const BYTES_PER_KILOBYTE: u64 = 1024;

/// The message of the error returned where the host reports no processor.
pub const NO_CPU_FOUND: &'static str = "No CPU found";

/// What the host reports of one processor.
#[derive(Clone, Debug, PartialEq, Eq)]
pub struct CpuReading {
    /// Brand string.
    pub brand: String,
    /// Frequency in MHz.
    pub frequency: u64,
}

/// What one round of host queries gave.
#[derive(Debug, PartialEq, Eq)]
pub struct HostReadings {
    /// The processors, in the order in which the host reports them.
    pub cpus: Vec<CpuReading>,
    /// Total physical memory in bytes.
    pub total_memory: u64,
    /// Total capacity of the primary disk in bytes, or the message of the
    /// failed query.
    pub disk_total: Result<u64, String>,
}

/// Coarse facts about the hardware of the host.
#[derive(Clone, Debug, PartialEq, Eq)]
pub struct SystemSnapshot {
    /// Brand string of the processor at index 0.
    pub cpu_name: String,
    /// Its frequency in MHz.
    pub cpu_speed: u64,
    /// Total physical memory in kilobytes.
    pub ram: u64,
    /// Total capacity of the primary disk in bytes.
    pub disk: u64,
}

/// Whole kilobytes in `bytes` of memory.
pub open spec fn kilobytes(bytes: u64) -> u64 {
    bytes / BYTES_PER_KILOBYTE
}

/// The bytes in `kilobytes` of disk. A count that 64 bits cannot hold is
/// given as the largest that they can.
pub open spec fn disk_bytes(kilobytes: u64) -> u64 {
    if kilobytes <= u64::MAX / BYTES_PER_KILOBYTE {
        (kilobytes * BYTES_PER_KILOBYTE) as u64
    } else {
        u64::MAX
    }
}

/// The bytes in `kilobytes` of disk.
pub fn to_disk_bytes(kilobytes: u64) -> (bytes: u64)
    ensures
        bytes == disk_bytes(kilobytes),
{
    if kilobytes <= u64::MAX / BYTES_PER_KILOBYTE {
        kilobytes * BYTES_PER_KILOBYTE
    } else {
        u64::MAX
    }
}

/// The processor that the probe speaks of: the one at index 0, and none
/// where the host reports none.
pub fn first_cpu(cpus: Vec<CpuReading>) -> (first: Option<CpuReading>)
    ensures
        cpus@.len() == 0 ==> first is None,
        cpus@.len() > 0 ==> first == Some(cpus@[0]),
{
    let mut cpus = cpus;
    if cpus.len() == 0 {
        None
    } else {
        Some(cpus.remove(0))
    }
}

impl HostReadings {
    /// The snapshot that these readings describe, where they hold a processor
    /// and a disk capacity.
    pub open spec fn snapshot(self) -> SystemSnapshot {
        SystemSnapshot {
            cpu_name: self.cpus@[0].brand,
            cpu_speed: self.cpus@[0].frequency,
            ram: kilobytes(self.total_memory),
            disk: self.disk_total->Ok_0,
        }
    }

    /// Whether `result` is what the probe answers on these readings:
    /// without a processor the fixed message, else the message of a failed
    /// disk query, else the snapshot.
    pub open spec fn answers(self, result: Result<SystemSnapshot, String>) -> bool {
        if self.cpus@.len() == 0 {
            result is Err && result->Err_0@ == NO_CPU_FOUND@
        } else if self.disk_total is Err {
            result is Err && result->Err_0 == self.disk_total->Err_0
        } else {
            result is Ok && result->Ok_0 == self.snapshot()
        }
    }

    /// The probe's answer on these readings.
    pub fn into_snapshot(self) -> (result: Result<SystemSnapshot, String>)
        ensures
            self.answers(result),
    {
        match first_cpu(self.cpus) {
            None => Err(NO_CPU_FOUND.to_string()),
            Some(cpu) => match self.disk_total {
                Err(message) => Err(message),
                Ok(total) => Ok(
                    SystemSnapshot {
                        cpu_name: cpu.brand,
                        cpu_speed: cpu.frequency,
                        ram: self.total_memory / BYTES_PER_KILOBYTE,
                        disk: total,
                    },
                ),
            },
        }
    }
}

/// Queries the host through a handle of its own, so that every call reads the
/// processors and the memory anew, and then asks for the disk.
fn read_host() -> (readings: HostReadings) {
    let system = System::new_with_specifics(
        RefreshKind::new().with_cpu(CpuRefreshKind::everything()).with_memory(
            MemoryRefreshKind::everything(),
        ),
    );
    readings_of(system.cpus(), system.total_memory(), sys_info::disk_info())
}

/// Whether `message` is the text under which `error` displays itself.
pub open spec fn is_message_of(error: sys_info::Error, message: String) -> bool {
    vstd::string::to_string_from_display_ensures::<sys_info::Error>(&error, message)
}

/// The readings that the answers of the host come to: one reading for each
/// processor, the memory as it is, which `sysinfo` counts in bytes, and the
/// disk total, which `sys-info` counts in kilobytes, in bytes. A failed disk
/// query gives the text of its error.
fn readings_of(
    cpus: &[sysinfo::Cpu],
    total_memory: u64,
    disk: Result<sys_info::DiskInfo, sys_info::Error>,
) -> (readings: HostReadings)
    ensures
        readings.cpus@.len() == cpus@.len(),
        readings.total_memory == total_memory,
        disk matches Ok(info) ==> readings.disk_total == Ok::<u64, String>(
            disk_bytes(info.total),
        ),
        disk matches Err(error) ==> readings.disk_total is Err && is_message_of(
            error,
            readings.disk_total->Err_0,
        ),
{
    let mut readings: Vec<CpuReading> = Vec::new();
    let mut i: usize = 0;
    while i < cpus.len()
        invariant
            i <= cpus.len(),
            readings@.len() == i,
        decreases cpus.len() - i,
    {
        readings.push(
            CpuReading { brand: cpus[i].brand().to_owned(), frequency: cpus[i].frequency() },
        );
        i += 1;
    }
    let disk_total = match disk {
        Ok(info) => Ok(to_disk_bytes(info.total)),
        Err(error) => Err(error.to_string()),
    };
    HostReadings { cpus: readings, total_memory, disk_total }
}

/// The system information probe: reads the host and answers with the
/// snapshot, or with the message of what could not be had.
///
/// What the host reports is not known beforehand; whatever it is, the answer
/// is the one that `HostReadings::answers` fixes for it.
pub fn get_system_info() -> (result: Result<SystemSnapshot, String>)
    ensures
        exists|readings: HostReadings| readings.answers(result),
{
    let readings = read_host();
    let result = readings.into_snapshot();
    assert(readings.answers(result));
    result
}

/// The snapshot speaks of the processor at index 0, whatever others the
/// host reports, counts the memory in whole kilobytes, and hands on the disk
/// capacity as the readings hold it.
pub proof fn lemma_snapshot_fields(readings: HostReadings, result: Result<SystemSnapshot, String>)
    requires
        readings.answers(result),
        result is Ok,
    ensures
        readings.cpus@.len() > 0,
        result->Ok_0.cpu_name == readings.cpus@[0].brand,
        result->Ok_0.cpu_speed == readings.cpus@[0].frequency,
        result->Ok_0.ram == readings.total_memory / BYTES_PER_KILOBYTE,
        readings.disk_total == Ok::<u64, String>(result->Ok_0.disk),
{
}

/// A disk of up to `u64::MAX / 1024` kilobytes has 1024 bytes for each, and
/// a disk has bytes exactly where it has kilobytes.
pub proof fn lemma_disk_bytes(kilobytes: u64)
    ensures
        kilobytes <= u64::MAX / BYTES_PER_KILOBYTE ==> disk_bytes(kilobytes) == kilobytes * 1024,
        disk_bytes(kilobytes) > 0 <==> kilobytes > 0,
        disk_bytes(kilobytes) >= kilobytes,
{
}

/// On a host that reports a processor, at least one kilobyte of memory and a
/// disk of positive capacity, the probe succeeds, and both the memory and the
/// disk of its snapshot are strictly positive.
pub proof fn lemma_positive_memory_and_disk(
    readings: HostReadings,
    result: Result<SystemSnapshot, String>,
)
    requires
        readings.answers(result),
        readings.cpus@.len() > 0,
        readings.total_memory >= BYTES_PER_KILOBYTE,
        readings.disk_total matches Ok(total) && total > 0,
    ensures
        result is Ok,
        result->Ok_0.ram > 0,
        result->Ok_0.disk > 0,
{
}

/// The probe fails exactly where the host reports no processor or the disk
/// query failed, and a missing processor is reported first.
pub proof fn lemma_probe_errors(readings: HostReadings, result: Result<SystemSnapshot, String>)
    requires
        readings.answers(result),
    ensures
        result is Err <==> readings.cpus@.len() == 0 || readings.disk_total is Err,
        readings.cpus@.len() == 0 ==> result->Err_0@ == NO_CPU_FOUND@,
{
}

} // verus!
