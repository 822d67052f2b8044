//! The host queries that the system information probe makes, as the crates
//! `sysinfo` and `sys-info` offer them. Nothing is assumed of what they
//! return: every answer depends on the machine and on the moment.

use vstd::prelude::*;

verus! {

/// `sysinfo::System`, the handle through which the host is queried.
#[verifier::external_type_specification]
#[verifier::external_body]
pub struct ExSystem(sysinfo::System);

/// `sysinfo::Cpu`, one logical processor as the host reports it.
#[verifier::external_type_specification]
#[verifier::external_body]
pub struct ExCpu(sysinfo::Cpu);

/// `sysinfo::RefreshKind`, the choice of what a refresh reads.
#[verifier::external_type_specification]
#[verifier::external_body]
pub struct ExRefreshKind(sysinfo::RefreshKind);

/// `sysinfo::CpuRefreshKind`, the choice of what is read of each processor.
#[verifier::external_type_specification]
#[verifier::external_body]
pub struct ExCpuRefreshKind(sysinfo::CpuRefreshKind);

/// `sysinfo::MemoryRefreshKind`, the choice of what is read of the memory.
#[verifier::external_type_specification]
#[verifier::external_body]
pub struct ExMemoryRefreshKind(sysinfo::MemoryRefreshKind);

/// `sys_info::DiskInfo`: a plain record of two public counters, `total` and
/// `free`, declared with its fields so that they can be read.
#[verifier::external_type_specification]
pub struct ExDiskInfo(sys_info::DiskInfo);

/// `sys_info::Error`, the failure of a `sys-info` query.
#[verifier::external_type_specification]
#[verifier::external_body]
pub struct ExSysInfoError(sys_info::Error);

/// `sysinfo::CpuRefreshKind::everything`: the choice that reads all there is
/// of a processor. Nothing is claimed of the value.
pub assume_specification[ sysinfo::CpuRefreshKind::everything ]() -> (kind: sysinfo::CpuRefreshKind)
;

/// `sysinfo::MemoryRefreshKind::everything`: the choice that reads all there
/// is of the memory. Nothing is claimed of the value.
pub assume_specification[ sysinfo::MemoryRefreshKind::everything ]() -> (kind:
    sysinfo::MemoryRefreshKind)
;

/// `sysinfo::RefreshKind::new`: the choice that reads nothing. Nothing is
/// claimed of the value.
pub assume_specification[ sysinfo::RefreshKind::new ]() -> (kind: sysinfo::RefreshKind)
;

/// `sysinfo::RefreshKind::with_cpu`: the same choice with the processors
/// added. Nothing is claimed of the value.
pub assume_specification[ sysinfo::RefreshKind::with_cpu ](
    kind: sysinfo::RefreshKind,
    cpu: sysinfo::CpuRefreshKind,
) -> (with_cpu: sysinfo::RefreshKind)
;

/// `sysinfo::RefreshKind::with_memory`: the same choice with the memory
/// added. Nothing is claimed of the value.
pub assume_specification[ sysinfo::RefreshKind::with_memory ](
    kind: sysinfo::RefreshKind,
    memory: sysinfo::MemoryRefreshKind,
) -> (with_memory: sysinfo::RefreshKind)
;

/// `sysinfo::System::new_with_specifics`: a handle that has read what
/// `refreshes` names. Nothing is claimed of the handle.
pub assume_specification[ sysinfo::System::new_with_specifics ](
    refreshes: sysinfo::RefreshKind,
) -> (system: sysinfo::System)
;

/// `sysinfo::System::cpus`: the processors read so far, possibly none.
/// Nothing is claimed of the slice, not even that it holds a processor.
pub assume_specification<'a>[ sysinfo::System::cpus ](system: &'a sysinfo::System) -> (cpus: &'a [sysinfo::Cpu])
;

/// `sysinfo::System::total_memory`: the size of the RAM, which its
/// documentation gives in bytes. Nothing is claimed of the number.
pub assume_specification[ sysinfo::System::total_memory ](system: &sysinfo::System) -> (bytes: u64)
;

/// `sysinfo::Cpu::brand`: the processor's brand string. Nothing is claimed
/// of the text.
pub assume_specification<'a>[ sysinfo::Cpu::brand ](cpu: &'a sysinfo::Cpu) -> (brand: &'a str)
;

/// `sysinfo::Cpu::frequency`: the processor's frequency as the host reports
/// it. Nothing is claimed of the number.
pub assume_specification[ sysinfo::Cpu::frequency ](cpu: &sysinfo::Cpu) -> (frequency: u64)
;

/// `sys_info::disk_info`: the disk counters of the host, which the crate
/// counts in kilobytes, or the reason why they could not be had. Nothing is
/// claimed of either.
pub assume_specification[ sys_info::disk_info ]() -> (info: Result<sys_info::DiskInfo, sys_info::Error>)
;

} // verus!
