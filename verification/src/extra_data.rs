//! Thread, fault, I/O, port and energy metrics of one process.
use vstd::prelude::*;
use self::ffi::{proc_taskinfo, rusage_info_v2};

pub mod ffi;

verus! {

/// Thread and page-fault counters.
#[derive(Clone, Copy)]
pub struct ThreadData {
    pub thread_count: i64,
    pub running_count: i64,
    pub faults_total: i64,
    pub faults_cow: i64,
    pub pageins: i64,
}

/// Cumulative disk I/O counters.
#[derive(Clone, Copy)]
pub struct IoData {
    pub bytes_read: i64,
    pub bytes_written: i64,
    pub logical_writes: i64,
}

/// Mach port and file descriptor counts.
#[derive(Clone, Copy)]
pub struct PortData {
    pub mach_port_count: i64,
    pub fd_count: i64,
}

/// Energy billed to the process and a UI-activity proxy for GPU time.
#[derive(Clone, Copy)]
pub struct EnergyData {
    pub cpu_energy_nj: i64,
    pub gpu_time_ms: i64,
}

/// Why a kernel query for a process failed.
#[derive(Clone, Copy, Debug, PartialEq, Eq)]
pub enum CollectError {
    /// `proc_pidinfo(PROC_PIDTASKINFO)` did not fill the whole record.
    TaskInfoShort { pid: i32 },
    /// `proc_pid_rusage` returned a non-zero status.
    RusageFailed { pid: i32, ret: i32 },
    /// `task_for_pid` returned a non-success kernel status.
    TaskForPidFailed { pid: i32, kr: i32 },
    /// `mach_port_names` returned a non-success kernel status.
    PortNamesFailed { kr: i32 },
}

/// The kernel's success status.
pub const KERN_SUCCESS: i32 = 0;

/// Thread and fault counters from a `proc_taskinfo` record that
/// `proc_pidinfo` returned with status `ret`; the record is only trusted when
/// `ret` is its full size `expected`.
pub fn threads_from_taskinfo(pid: i32, ret: i32, expected: i32, info: &proc_taskinfo) -> (r: Result<ThreadData, CollectError>)
    ensures
        ret != expected ==> r == Err::<ThreadData, CollectError>(CollectError::TaskInfoShort { pid }),
        ret == expected ==> r == Ok::<ThreadData, CollectError>(ThreadData {
            thread_count: info.pti_threadnum as i64,
            running_count: info.pti_numrunning as i64,
            faults_total: info.pti_faults as i64,
            faults_cow: info.pti_cow_faults as i64,
            pageins: info.pti_pageins as i64,
        }),
{
    if ret != expected {
        return Err(CollectError::TaskInfoShort { pid });
    }
    Ok(ThreadData {
        thread_count: info.pti_threadnum as i64,
        running_count: info.pti_numrunning as i64,
        faults_total: info.pti_faults as i64,
        faults_cow: info.pti_cow_faults as i64,
        pageins: info.pti_pageins as i64,
    })
}

/// Disk I/O counters from a `rusage_info_v2` record that `proc_pid_rusage`
/// returned with status `ret` (0 is success). Byte counts are stored as
/// `i64`, wrapping above `i64::MAX` as the database column does.
pub fn io_from_rusage(pid: i32, ret: i32, info: &rusage_info_v2) -> (r: Result<IoData, CollectError>)
    ensures
        ret != 0 ==> r == Err::<IoData, CollectError>(CollectError::RusageFailed { pid, ret }),
        ret == 0 ==> r == Ok::<IoData, CollectError>(IoData {
            bytes_read: info.ri_diskio_bytesread as i64,
            bytes_written: info.ri_diskio_byteswritten as i64,
            logical_writes: info.ri_logical_writes as i64,
        }),
{
    if ret != 0 {
        return Err(CollectError::RusageFailed { pid, ret });
    }
    Ok(IoData {
        bytes_read: info.ri_diskio_bytesread as i64,
        bytes_written: info.ri_diskio_byteswritten as i64,
        logical_writes: info.ri_logical_writes as i64,
    })
}

/// Energy figures from a `rusage_info_v2` record that `proc_pid_rusage`
/// returned with status `ret`: the billed energy in nanojoules, and the
/// user-interactive CPU time converted from nanoseconds to whole
/// milliseconds.
pub fn energy_from_rusage(pid: i32, ret: i32, info: &rusage_info_v2) -> (r: Result<EnergyData, CollectError>)
    ensures
        ret != 0 ==> r == Err::<EnergyData, CollectError>(CollectError::RusageFailed { pid, ret }),
        ret == 0 ==> r == Ok::<EnergyData, CollectError>(EnergyData {
            cpu_energy_nj: info.ri_billed_energy as i64,
            gpu_time_ms: (info.ri_cpu_time_qos_user_interactive / 1_000_000) as i64,
        }),
{
    if ret != 0 {
        return Err(CollectError::RusageFailed { pid, ret });
    }
    Ok(EnergyData {
        cpu_energy_nj: info.ri_billed_energy as i64,
        gpu_time_ms: (info.ri_cpu_time_qos_user_interactive / 1_000_000) as i64,
    })
}

/// The buffer size in bytes to ask `PROC_PIDLISTFDS` for, given the size it
/// reported as `needed`: room for 16 more entries than reported, rounded to
/// whole entries. `None` when nothing was reported (no second query).
pub fn fd_listing_capacity(needed: i32, entry_size: i32) -> (r: Option<i32>)
    requires
        entry_size > 0,
        needed > 0 ==> (needed / entry_size + 16) * entry_size <= i32::MAX,
    ensures
        needed <= 0 ==> r is None,
        needed > 0 ==> r == Some(((needed / entry_size + 16) * entry_size) as i32),
{
    if needed <= 0 {
        None
    } else {
        let q = needed / entry_size;
        assert(q + 16 <= (q + 16) * entry_size) by (nonlinear_arith)
            requires
                entry_size >= 1,
                q >= 0,
        ;
        Some((q + 16) * entry_size)
    }
}

/// The number of open descriptors: whole entries in the `filled` bytes the
/// second `PROC_PIDLISTFDS` query returned, or 0 when either query reported
/// nothing.
pub fn fd_count_from_listing(needed: i32, filled: i32, entry_size: i32) -> (r: i64)
    requires
        entry_size > 0,
    ensures
        r == if needed <= 0 || filled <= 0 { 0 } else { filled / entry_size },
{
    if needed <= 0 {
        0
    } else if filled <= 0 {
        0
    } else {
        (filled / entry_size) as i64
    }
}

/// Whether the port names of the task are listed: only when the basic task
/// query succeeded.
pub fn needs_port_names(task_info_kr: i32) -> (r: bool)
    ensures
        r == (task_info_kr == KERN_SUCCESS),
{
    task_info_kr == KERN_SUCCESS
}

/// The port count that `mach_port_names` reported with status `kr`.
pub fn port_count_from_names(kr: i32, names_count: u32) -> (r: Result<i64, CollectError>)
    ensures
        kr != KERN_SUCCESS ==> r == Err::<i64, CollectError>(CollectError::PortNamesFailed { kr }),
        kr == KERN_SUCCESS ==> r == Ok::<i64, CollectError>(names_count as i64),
{
    if kr != KERN_SUCCESS {
        return Err(CollectError::PortNamesFailed { kr });
    }
    Ok(names_count as i64)
}

/// Port and descriptor counts. The Mach port count is the listed port names
/// when the basic task query succeeded and the listing did too; 0 otherwise.
pub fn port_data(fd_count: i64, task_info_kr: i32, names: Result<i64, CollectError>) -> (r: PortData)
    ensures
        r.fd_count == fd_count,
        r.mach_port_count == if task_info_kr == KERN_SUCCESS {
            match names { Ok(n) => n, Err(_) => 0 }
        } else {
            0
        },
{
    let mach_port_count = if task_info_kr == KERN_SUCCESS {
        match names { Ok(n) => n, Err(_) => 0 }
    } else {
        0
    };
    PortData { mach_port_count, fd_count }
}

/// Checks the status of `task_for_pid`: the task port when it succeeded.
pub fn task_port_from(pid: i32, kr: i32, task: u32) -> (r: Result<u32, CollectError>)
    ensures
        kr != KERN_SUCCESS ==> r == Err::<u32, CollectError>(CollectError::TaskForPidFailed { pid, kr }),
        kr == KERN_SUCCESS ==> r == Ok::<u32, CollectError>(task),
{
    if kr != KERN_SUCCESS {
        return Err(CollectError::TaskForPidFailed { pid, kr });
    }
    Ok(task)
}

} // verus!
