use emacs_reporter::extra_data::ffi::{proc_taskinfo, rusage_info_v2};
use emacs_reporter::extra_data::{
    energy_from_rusage, fd_count_from_listing, fd_listing_capacity, io_from_rusage, needs_port_names,
    port_count_from_names, port_data, task_port_from, threads_from_taskinfo, CollectError,
};

fn rusage() -> rusage_info_v2 {
    rusage_info_v2 {
        ri_uuid: [0; 16], ri_user_time: 0, ri_system_time: 0, ri_pkg_idle_wkups: 0,
        ri_interrupt_wkups: 0, ri_pageins: 0, ri_wired_size: 0, ri_resident_size: 0,
        ri_phys_footprint: 0, ri_proc_start_abstime: 0, ri_proc_exit_abstime: 0,
        ri_child_user_time: 0, ri_child_system_time: 0, ri_child_pkg_idle_wkups: 0,
        ri_child_interrupt_wkups: 0, ri_child_pageins: 0, ri_child_elapsed_abstime: 0,
        ri_diskio_bytesread: 1000, ri_diskio_byteswritten: 2000, ri_cpu_time_qos_default: 0,
        ri_cpu_time_qos_maintenance: 0, ri_cpu_time_qos_background: 0, ri_cpu_time_qos_utility: 0,
        ri_cpu_time_qos_legacy: 0, ri_cpu_time_qos_user_initiated: 0,
        ri_cpu_time_qos_user_interactive: 7_999_999, ri_billed_system_time: 0,
        ri_serviced_system_time: 0, ri_logical_writes: 3000, ri_lifetime_max_phys_footprint: 0,
        ri_instructions: 0, ri_cycles: 0, ri_billed_energy: 123456, ri_serviced_energy: 0,
        ri_interval_max_phys_footprint: 0, ri_runnable_time: 0,
    }
}

#[test]
fn thread_counters() {
    let info = proc_taskinfo {
        pti_virtual_size: 0, pti_resident_size: 0, pti_total_user: 0, pti_total_system: 0,
        pti_threads_user: 0, pti_threads_system: 0, pti_policy: 0, pti_faults: 100, pti_pageins: 7,
        pti_cow_faults: 3, pti_messages_sent: 0, pti_messages_received: 0, pti_syscalls_mach: 0,
        pti_syscalls_unix: 0, pti_csw: 0, pti_threadnum: 12, pti_numrunning: 2, pti_priority: 0,
    };
    let t = threads_from_taskinfo(9, 96, 96, &info).unwrap();
    assert_eq!((t.thread_count, t.running_count, t.faults_total, t.faults_cow, t.pageins), (12, 2, 100, 3, 7));
    assert!(matches!(threads_from_taskinfo(9, -1, 96, &info), Err(CollectError::TaskInfoShort { pid: 9 })));
}

#[test]
fn io_and_energy_counters() {
    let r = rusage();
    let io = io_from_rusage(4, 0, &r).unwrap();
    assert_eq!((io.bytes_read, io.bytes_written, io.logical_writes), (1000, 2000, 3000));
    assert!(matches!(io_from_rusage(4, 1, &r), Err(CollectError::RusageFailed { pid: 4, ret: 1 })));
    let e = energy_from_rusage(4, 0, &r).unwrap();
    assert_eq!(e.cpu_energy_nj, 123456);
    assert_eq!(e.gpu_time_ms, 7);
    assert!(matches!(energy_from_rusage(4, -1, &r), Err(CollectError::RusageFailed { pid: 4, ret: -1 })));
    let mut big = rusage();
    big.ri_diskio_bytesread = u64::MAX;
    assert_eq!(io_from_rusage(4, 0, &big).unwrap().bytes_read, -1);
}

#[test]
fn fd_counting() {
    assert_eq!(fd_listing_capacity(0, 8), None);
    assert_eq!(fd_listing_capacity(-4, 8), None);
    assert_eq!(fd_listing_capacity(80, 8), Some(208));
    assert_eq!(fd_listing_capacity(84, 8), Some(208));
    assert_eq!(fd_count_from_listing(0, 80, 8), 0);
    assert_eq!(fd_count_from_listing(80, 0, 8), 0);
    assert_eq!(fd_count_from_listing(80, 84, 8), 10);
}

#[test]
fn port_counting() {
    assert!(needs_port_names(0));
    assert!(!needs_port_names(4));
    assert_eq!(port_count_from_names(0, 37), Ok(37));
    assert_eq!(port_count_from_names(5, 37), Err(CollectError::PortNamesFailed { kr: 5 }));
    let p = port_data(12, 0, Ok(37));
    assert_eq!((p.mach_port_count, p.fd_count), (37, 12));
    assert_eq!(port_data(12, 0, Err(CollectError::PortNamesFailed { kr: 5 })).mach_port_count, 0);
    assert_eq!(port_data(12, 3, Ok(37)).mach_port_count, 0);
    assert_eq!(task_port_from(2, 0, 5), Ok(5));
    assert_eq!(task_port_from(2, 1, 5), Err(CollectError::TaskForPidFailed { pid: 2, kr: 1 }));
}
