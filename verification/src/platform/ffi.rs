//! Plain copies of the kernel records that the platform collectors read.
#![allow(non_camel_case_types)]

use vstd::prelude::*;

verus! {

/// Copy-on-write share mode.
pub const SM_COW: u8 = 1;
/// Private share mode.
pub const SM_PRIVATE: u8 = 2;
/// Empty share mode.
pub const SM_EMPTY: u8 = 3;
/// Shared share mode.
pub const SM_SHARED: u8 = 4;
/// True-shared share mode.
pub const SM_TRUESHARED: u8 = 5;
/// Private-aliased share mode.
pub const SM_PRIVATE_ALIASED: u8 = 6;
/// Shared-aliased share mode.
pub const SM_SHARED_ALIASED: u8 = 7;
/// Large-page share mode.
pub const SM_LARGE_PAGE: u8 = 8;

/// What `mach_vm_region_recurse` reports about one region
/// (`vm_region_submap_info_64`).
#[derive(Clone, Copy, Debug, Default)]
pub struct vm_region_submap_info_64 {
    pub protection: i32,
    pub max_protection: i32,
    pub inheritance: u32,
    pub offset: u64,
    pub user_tag: u32,
    pub pages_resident: u32,
    pub pages_shared_now_private: u32,
    pub pages_swapped_out: u32,
    pub pages_dirtied: u32,
    pub ref_count: u32,
    pub shadow_depth: u16,
    pub external_pager: u8,
    pub share_mode: u8,
    pub is_submap: i32,
    pub behavior: i32,
    pub object_id: u32,
    pub user_wired_count: u16,
    pub pages_reusable: u32,
}

/// What `proc_pidinfo(PROC_PIDTASKINFO)` reports (`struct proc_taskinfo`).
#[derive(Clone, Copy, Debug)]
pub struct proc_taskinfo {
    pub pti_virtual_size: u64,
    pub pti_resident_size: u64,
    pub pti_total_user: u64,
    pub pti_total_system: u64,
    pub pti_threads_user: u64,
    pub pti_threads_system: u64,
    pub pti_policy: i32,
    pub pti_faults: i32,
    pub pti_pageins: i32,
    pub pti_cow_faults: i32,
    pub pti_messages_sent: i32,
    pub pti_messages_received: i32,
    pub pti_syscalls_mach: i32,
    pub pti_syscalls_unix: i32,
    pub pti_csw: i32,
    pub pti_threadnum: i32,
    pub pti_numrunning: i32,
    pub pti_priority: i32,
}

/// What `task_info(TASK_VM_INFO)` reports (`struct task_vm_info`).
#[derive(Clone, Copy, Debug)]
pub struct task_vm_info {
    pub virtual_size: u64,
    pub region_count: i32,
    pub page_size: i32,
    pub resident_size: u64,
    pub resident_size_peak: u64,
    pub device: u64,
    pub device_peak: u64,
    pub internal: u64,
    pub internal_peak: u64,
    pub external: u64,
    pub external_peak: u64,
    pub reusable: u64,
    pub reusable_peak: u64,
    pub purgeable_volatile_pmap: u64,
    pub purgeable_volatile_resident: u64,
    pub purgeable_volatile_virtual: u64,
    pub compressed: u64,
    pub compressed_peak: u64,
    pub compressed_lifetime: u64,
    pub phys_footprint: u64,
    pub min_address: u64,
    pub max_address: u64,
    pub ledger_phys_footprint_peak: u64,
    pub ledger_purgeable_nonvolatile: u64,
    pub ledger_purgeable_novolatile_compressed: u64,
    pub ledger_purgeable_volatile: u64,
    pub ledger_purgeable_volatile_compressed: u64,
    pub ledger_tag_network_nonvolatile: u64,
    pub ledger_tag_network_nonvolatile_compressed: u64,
    pub ledger_tag_network_volatile: u64,
    pub ledger_tag_network_volatile_compressed: u64,
    pub ledger_tag_media_footprint: u64,
    pub ledger_tag_media_footprint_compressed: u64,
    pub ledger_tag_media_nofootprint: u64,
    pub ledger_tag_media_nofootprint_compressed: u64,
    pub ledger_tag_graphics_footprint: u64,
    pub ledger_tag_graphics_footprint_compressed: u64,
    pub ledger_tag_graphics_nofootprint: u64,
    pub ledger_tag_graphics_nofootprint_compressed: u64,
    pub ledger_tag_neural_footprint: u64,
    pub ledger_tag_neural_footprint_compressed: u64,
    pub ledger_tag_neural_nofootprint: u64,
    pub ledger_tag_neural_nofootprint_compressed: u64,
    pub limit_bytes_remaining: u64,
    pub decompressions: i32,
    pub ledger_swapins: u64,
}

} // verus!
