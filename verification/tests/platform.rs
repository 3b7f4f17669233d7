use emacs_reporter::platform::ffi::{proc_taskinfo, task_vm_info, vm_region_submap_info_64, SM_COW, SM_PRIVATE, SM_SHARED};
use emacs_reporter::platform::{
    aggregate_regions, binary_path_from_buffer, cpu_from_taskinfo, emacs_pids, generate_user_uuid, user_uuid_from_random,
    is_emacs_binary, memory_from_vm_info, os_version_from_output, pid_buffer_len, pids_to_probe,
    protection_string, region_tag, region_walk_step, share_mode_string, start_time_from_ps,
    task_port_from, PlatformError, RegionRecord, WalkStep, WALK_DEPTH,
};

fn taskinfo() -> proc_taskinfo {
    proc_taskinfo {
        pti_virtual_size: 1,
        pti_resident_size: 2_000_000,
        pti_total_user: 3_456_789_012,
        pti_total_system: 999_999,
        pti_threads_user: 0,
        pti_threads_system: 0,
        pti_policy: 0,
        pti_faults: 10,
        pti_pageins: 11,
        pti_cow_faults: 12,
        pti_messages_sent: 13,
        pti_messages_received: 14,
        pti_syscalls_mach: 15,
        pti_syscalls_unix: 16,
        pti_csw: 17,
        pti_threadnum: 18,
        pti_numrunning: 19,
        pti_priority: 0,
    }
}

#[test]
fn protection_and_share_mode_names() {
    assert_eq!(protection_string(0), "---");
    assert_eq!(protection_string(5), "r-x");
    assert_eq!(protection_string(7), "rwx");
    assert_eq!(protection_string(3), "rw-");
    assert_eq!(share_mode_string(1), "COW");
    assert_eq!(share_mode_string(2), "PRV");
    assert_eq!(share_mode_string(3), "NUL");
    assert_eq!(share_mode_string(4), "SHM");
    assert_eq!(share_mode_string(5), "TSH");
    assert_eq!(share_mode_string(6), "PAL");
    assert_eq!(share_mode_string(7), "SAL");
    assert_eq!(share_mode_string(8), "LPG");
    assert_eq!(share_mode_string(0), "UNK");
    assert_eq!(share_mode_string(200), "UNK");
}

#[test]
fn region_tag_names() {
    assert_eq!(region_tag(1), "MALLOC");
    assert_eq!(region_tag(2), "MALLOC_SMALL");
    assert_eq!(region_tag(30), "STACK");
    assert_eq!(region_tag(0), "TAG_0");
    assert_eq!(region_tag(200), "TAG_200");
}

fn region(tag: u32, size: u64, prot: i32, mode: u8, resident: u32, dirtied: u32, snp: u32, swapped: u32) -> RegionRecord {
    RegionRecord {
        size,
        info: vm_region_submap_info_64 {
            protection: prot,
            user_tag: tag,
            pages_resident: resident,
            pages_dirtied: dirtied,
            pages_shared_now_private: snp,
            pages_swapped_out: swapped,
            share_mode: mode,
            ..Default::default()
        },
    }
}

#[test]
fn regions_aggregate_by_type() {
    let records = vec![
        region(2, 4096, 3, SM_PRIVATE, 1, 1, 0, 0),
        region(30, 8192, 3, SM_SHARED, 2, 0, 0, 1),
        region(2, 16384, 1, SM_COW, 3, 1, 1, 2),
    ];
    let rows = aggregate_regions(&records, 16384).unwrap();
    assert_eq!(rows.len(), 2);
    let small = rows.iter().find(|r| r.region_type == "MALLOC_SMALL").unwrap();
    assert_eq!(small.region_count, 2);
    assert_eq!(small.block_count, None);
    assert_eq!(small.virtual_size, 4096 + 16384);
    assert_eq!(small.resident_size, 4 * 16384);
    assert_eq!(small.dirty_size, 3 * 16384);
    assert_eq!(small.swapped_size, 2 * 16384);
    assert_eq!(small.private_size, Some(4096 + 16384));
    assert_eq!(small.shared_size, Some(0));
    assert_eq!(small.protection.as_deref(), Some("rw-"));
    assert_eq!(small.share_mode.as_deref(), Some("PRV"));
    let stack = rows.iter().find(|r| r.region_type == "STACK").unwrap();
    assert_eq!(stack.region_count, 1);
    assert_eq!(stack.shared_size, Some(8192));
    assert_eq!(stack.private_size, Some(0));
    assert_eq!(stack.share_mode.as_deref(), Some("SHM"));
    let total_count: i64 = rows.iter().map(|r| r.region_count).sum();
    let total_virtual: i64 = rows.iter().map(|r| r.virtual_size).sum();
    assert_eq!(total_count, 3);
    assert_eq!(total_virtual, 4096 + 8192 + 16384);
    assert!(aggregate_regions(&vec![], 4096).unwrap().is_empty());
    let huge = vec![region(1, 4096, 1, SM_PRIVATE, u32::MAX, 0, 0, 0)];
    assert!(aggregate_regions(&huge, i64::MAX / 2).is_none());
    let wide = vec![region(1, u64::MAX / 2 + 1, 1, SM_PRIVATE, 0, 0, 0, 0), region(1, u64::MAX / 2 + 1, 1, SM_PRIVATE, 0, 0, 0, 0)];
    assert!(aggregate_regions(&wide, 4096).is_none());
}

#[test]
fn region_walk_steps() {
    assert_eq!(region_walk_step(1, 10, 20, 1024, 0), WalkStep::Stop);
    assert_eq!(region_walk_step(0, 10, 20, 1024, 1), WalkStep::Descend { depth: 1025 });
    assert_eq!(region_walk_step(0, 10, 20, 7, 0), WalkStep::Record { next_address: 30, depth: WALK_DEPTH });
}

#[test]
fn emacs_binary_names() {
    assert!(is_emacs_binary("/Applications/Emacs.app/Contents/MacOS/Emacs"));
    assert!(is_emacs_binary("/opt/homebrew/bin/emacs"));
    assert!(is_emacs_binary("/a/emacs/"));
    assert!(is_emacs_binary("emacs"));
    assert!(!is_emacs_binary("/usr/bin/emacs-29"));
    assert!(!is_emacs_binary("/a/emacs/.."));
    assert!(!is_emacs_binary("/"));
    assert!(!is_emacs_binary(""));
    assert!(!is_emacs_binary("/usr/bin/emacsclient"));
}

#[test]
fn pid_listing() {
    assert_eq!(pid_buffer_len(0), Err(PlatformError::ListPidsFailed));
    assert_eq!(pid_buffer_len(-3), Err(PlatformError::ListPidsFailed));
    assert_eq!(pid_buffer_len(5), Ok(21));
    let buf = vec![1, 0, 42, -1, 77, 9, 0, 0];
    assert_eq!(pids_to_probe(&buf, 0), Err(PlatformError::NoPids));
    assert_eq!(pids_to_probe(&buf, 5), Ok(vec![1, 42, 77]));
    assert_eq!(pids_to_probe(&buf, 100), Ok(vec![1, 42, 77, 9]));
    let probed = vec![
        (1, Some("/sbin/launchd".to_string())),
        (42, Some("/opt/homebrew/bin/Emacs".to_string())),
        (77, None),
        (9, Some("/usr/local/bin/emacs".to_string())),
    ];
    assert_eq!(emacs_pids(&probed), vec![42, 9]);
}

#[test]
fn binary_path_buffer() {
    let mut buf = b"/usr/bin/emacs".to_vec();
    buf.extend_from_slice(&[0, 0, 0, b'x']);
    assert_eq!(binary_path_from_buffer(7, 14, &buf), Ok("/usr/bin/emacs".to_string()));
    assert_eq!(binary_path_from_buffer(7, 0, &buf), Err(PlatformError::PathFailed { pid: 7 }));
    assert_eq!(binary_path_from_buffer(7, 3, b"abc"), Err(PlatformError::InvalidPath));
    assert_eq!(binary_path_from_buffer(7, 3, &[b'a', 0xff, b'b', 0]), Ok("a\u{fffd}b".to_string()));
}

#[test]
fn start_time_parsing() {
    assert_eq!(start_time_from_ps(5, true, b"Sat Mar 21 17:12:57 2026\n".to_vec()), Ok(1774113177));
    assert_eq!(start_time_from_ps(5, true, b"  Fri Jan  5 09:03:07 2024  ".to_vec()), Ok(1704445387));
    assert_eq!(start_time_from_ps(5, false, b"Sat Mar 21 17:12:57 2026".to_vec()), Err(PlatformError::PsFailed { pid: 5 }));
    assert_eq!(start_time_from_ps(5, true, vec![0xff, 0xfe]), Err(PlatformError::PsNotUtf8));
    assert_eq!(start_time_from_ps(5, true, b"yesterday".to_vec()), Err(PlatformError::BadStartTime));
}

#[test]
fn cpu_counters() {
    let info = taskinfo();
    let cpu = cpu_from_taskinfo(3, 96, 96, &info).unwrap();
    assert_eq!(cpu.user_ms, 3456);
    assert_eq!(cpu.system_ms, 0);
    assert_eq!(cpu.messages_sent, 13);
    assert_eq!(cpu.messages_received, 14);
    assert_eq!(cpu.syscalls_mach, 15);
    assert_eq!(cpu.syscalls_unix, 16);
    assert_eq!(cpu.context_switches, 17);
    assert!(matches!(cpu_from_taskinfo(3, 0, 96, &info), Err(PlatformError::TaskInfoShort { pid: 3 })));
}

#[test]
fn memory_figures() {
    let mut vm: task_vm_info = unsafe_free_zero_vm();
    vm.virtual_size = 100;
    vm.resident_size = 50;
    vm.phys_footprint = 40;
    vm.ledger_phys_footprint_peak = 60;
    vm.internal = 30;
    vm.external = 20;
    vm.compressed = 10;
    vm.purgeable_volatile_resident = 5;
    vm.purgeable_volatile_pmap = 3;
    vm.ledger_purgeable_nonvolatile = 4;
    let m = memory_from_vm_info(1, 0, &vm, &taskinfo()).unwrap();
    assert_eq!(m.virt_size, 100);
    assert_eq!(m.resident_size, 50);
    assert_eq!(m.resident_size_peak, 2_000_000);
    assert_eq!(m.phys_footprint, 40);
    assert_eq!(m.phys_footprint_peak, 60);
    assert_eq!(m.private_size, Some(30));
    assert_eq!(m.shared_size, Some(20));
    assert_eq!(m.swapped_size, Some(10));
    assert_eq!(m.purgeable_volatile, Some(5));
    assert_eq!(m.purgeable_nonvolatile, Some(4));
    assert!(matches!(memory_from_vm_info(1, 5, &vm, &taskinfo()), Err(PlatformError::VmInfoFailed { pid: 1, kr: 5 })));
    assert_eq!(task_port_from(1, 0, 99), Ok(99));
    assert_eq!(task_port_from(1, 5, 99), Err(PlatformError::TaskForPidFailed { pid: 1, kr: 5 }));
}

fn unsafe_free_zero_vm() -> task_vm_info {
    task_vm_info {
        virtual_size: 0, region_count: 0, page_size: 0, resident_size: 0, resident_size_peak: 0,
        device: 0, device_peak: 0, internal: 0, internal_peak: 0, external: 0, external_peak: 0,
        reusable: 0, reusable_peak: 0, purgeable_volatile_pmap: 0, purgeable_volatile_resident: 0,
        purgeable_volatile_virtual: 0, compressed: 0, compressed_peak: 0, compressed_lifetime: 0,
        phys_footprint: 0, min_address: 0, max_address: 0, ledger_phys_footprint_peak: 0,
        ledger_purgeable_nonvolatile: 0, ledger_purgeable_novolatile_compressed: 0,
        ledger_purgeable_volatile: 0, ledger_purgeable_volatile_compressed: 0,
        ledger_tag_network_nonvolatile: 0, ledger_tag_network_nonvolatile_compressed: 0,
        ledger_tag_network_volatile: 0, ledger_tag_network_volatile_compressed: 0,
        ledger_tag_media_footprint: 0, ledger_tag_media_footprint_compressed: 0,
        ledger_tag_media_nofootprint: 0, ledger_tag_media_nofootprint_compressed: 0,
        ledger_tag_graphics_footprint: 0, ledger_tag_graphics_footprint_compressed: 0,
        ledger_tag_graphics_nofootprint: 0, ledger_tag_graphics_nofootprint_compressed: 0,
        ledger_tag_neural_footprint: 0, ledger_tag_neural_footprint_compressed: 0,
        ledger_tag_neural_nofootprint: 0, ledger_tag_neural_nofootprint_compressed: 0,
        limit_bytes_remaining: 0, decompressions: 0, ledger_swapins: 0,
    }
}

#[test]
fn os_version_output() {
    assert_eq!(os_version_from_output(Some(b"14.4.1\n".to_vec())), "14.4.1");
    assert_eq!(os_version_from_output(Some(vec![0xff])), "unknown");
    assert_eq!(os_version_from_output(None), "unknown");
}

#[test]
fn user_uuid_is_random_v4() {
    let a = generate_user_uuid().unwrap();
    let b = generate_user_uuid().unwrap();
    assert_eq!(a.len(), 36);
    assert_eq!(a.as_bytes()[14], b'4');
    assert!(matches!(a.as_bytes()[19], b'8' | b'9' | b'a' | b'b'));
    assert_ne!(a, b);
    assert!(uuid::Uuid::parse_str(&a).is_ok());
}

#[test]
fn user_uuid_from_random_outcome() {
    assert_eq!(
        user_uuid_from_random(Ok([0xff; 16])),
        Some("ffffffff-ffff-4fff-bfff-ffffffffffff".to_string())
    );
    assert_eq!(
        user_uuid_from_random(Ok([0; 16])),
        Some("00000000-0000-4000-8000-000000000000".to_string())
    );
    let raw = [0x12, 0x34, 0x56, 0x78, 0x9a, 0xbc, 0xde, 0xf0, 0x11, 0x22, 0x33, 0x44, 0x55, 0x66, 0x77, 0x88];
    assert_eq!(
        user_uuid_from_random(Ok(raw)),
        Some(uuid::Builder::from_random_bytes(raw).into_uuid().to_string())
    );
    assert_eq!(user_uuid_from_random(Err(getrandom::Error::UNSUPPORTED)), None);
}
