//! Process discovery, CPU, memory and VM-region metrics: everything here turns
//! what the kernel reported into the rows the reporter stores.
use vstd::prelude::*;
use crate::text::{
    decimal, decimal_string, eq_ignore_ascii_case, hyphenated, hyphenated_string, is_trim_of,
    law_hyphenated_layout,
    lossy_decoded, str_eq_ignore_ascii_case, trim, utf8_lossy_string, utf8_string,
};
use vstd::utf8::{decode_utf8, valid_utf8};
use crate::paths::{file_name, file_name_of};
use crate::random::random_bytes;
use self::ffi::{
    proc_taskinfo, task_vm_info, vm_region_submap_info_64, SM_COW, SM_EMPTY, SM_LARGE_PAGE, SM_PRIVATE, SM_PRIVATE_ALIASED,
    SM_SHARED, SM_SHARED_ALIASED, SM_TRUESHARED,
};

pub mod ffi;

verus! {

// ── Public types ──────────────────────────────────────────────────────────────

/// Cumulative CPU counters of one process.
pub struct CpuData {
    pub user_ms: i64,
    pub system_ms: i64,
    pub messages_sent: i64,
    pub messages_received: i64,
    pub syscalls_mach: i64,
    pub syscalls_unix: i64,
    pub context_switches: i64,
}

/// Memory figures of one process.
pub struct MemoryData {
    pub virt_size: i64,
    pub resident_size: i64,
    pub resident_size_peak: i64,
    pub phys_footprint: i64,
    pub phys_footprint_peak: i64,
    pub private_size: Option<i64>,
    pub shared_size: Option<i64>,
    pub swapped_size: Option<i64>,
    pub purgeable_volatile: Option<i64>,
    pub purgeable_nonvolatile: Option<i64>,
}

/// Totals over all VM regions of one region type.
pub struct VmRegion {
    pub region_type: String,
    pub region_count: i64,
    pub block_count: Option<i64>,
    pub virtual_size: i64,
    pub resident_size: i64,
    pub dirty_size: i64,
    pub swapped_size: i64,
    pub shared_size: Option<i64>,
    pub private_size: Option<i64>,
    pub protection: Option<String>,
    pub share_mode: Option<String>,
}

// ── Protection and share mode names ──────────────────────────────────────────

/// `rwx`-style rendering of VM protection bits 1 (read), 2 (write), 4 (execute).
pub open spec fn spec_protection_string(prot: i32) -> Seq<char> {
    seq![
        if prot & 1 != 0 { 'r' } else { '-' },
        if prot & 2 != 0 { 'w' } else { '-' },
        if prot & 4 != 0 { 'x' } else { '-' },
    ]
}

/// Renders VM protection bits as three characters, `r`, `w`, `x` or `-`.
pub fn protection_string(prot: i32) -> (r: String)
    ensures
        r@ == spec_protection_string(prot),
{
    proof {
        reveal_strlit("r"); reveal_strlit("w"); reveal_strlit("x"); reveal_strlit("-");
    }
    let mut s = String::new();
    s.append(if prot & 1 != 0 { "r" } else { "-" });
    s.append(if prot & 2 != 0 { "w" } else { "-" });
    s.append(if prot & 4 != 0 { "x" } else { "-" });
    assert(s@ =~= spec_protection_string(prot));
    s
}

/// Three-letter name of a share mode.
pub open spec fn spec_share_mode_string(mode: u8) -> Seq<char> {
    if mode == SM_COW { "COW"@ }
    else if mode == SM_PRIVATE { "PRV"@ }
    else if mode == SM_EMPTY { "NUL"@ }
    else if mode == SM_SHARED { "SHM"@ }
    else if mode == SM_TRUESHARED { "TSH"@ }
    else if mode == SM_PRIVATE_ALIASED { "PAL"@ }
    else if mode == SM_SHARED_ALIASED { "SAL"@ }
    else if mode == SM_LARGE_PAGE { "LPG"@ }
    else { "UNK"@ }
}

/// Names a share mode; unknown modes are `UNK`.
pub fn share_mode_string(mode: u8) -> (r: String)
    ensures
        r@ == spec_share_mode_string(mode),
{
    let s = if mode == SM_COW { "COW" }
    else if mode == SM_PRIVATE { "PRV" }
    else if mode == SM_EMPTY { "NUL" }
    else if mode == SM_SHARED { "SHM" }
    else if mode == SM_TRUESHARED { "TSH" }
    else if mode == SM_PRIVATE_ALIASED { "PAL" }
    else if mode == SM_SHARED_ALIASED { "SAL" }
    else if mode == SM_LARGE_PAGE { "LPG" }
    else { "UNK" };
    String::from_str(s)
}

// ── Region tag names ─────────────────────────────────────────────────────────

/// The name of a region's user tag, after the `VM_MEMORY_*` constants of
/// `<mach/vm_statistics.h>`; other tags are `TAG_<n>`.
pub open spec fn spec_region_tag(tag: u32) -> Seq<char> {
    if tag == 1 { "MALLOC"@ }
    else if tag == 2 { "MALLOC_SMALL"@ }
    else if tag == 3 { "MALLOC_LARGE"@ }
    else if tag == 4 { "MALLOC_HUGE"@ }
    else if tag == 5 { "SBRK"@ }
    else if tag == 6 { "REALLOC"@ }
    else if tag == 7 { "MALLOC_TINY"@ }
    else if tag == 8 { "MALLOC_LARGE_REUSABLE"@ }
    else if tag == 9 { "MALLOC_LARGE_REUSED"@ }
    else if tag == 10 { "ANALYSIS_TOOL"@ }
    else if tag == 11 { "MALLOC_NANO"@ }
    else if tag == 12 { "MALLOC_MEDIUM"@ }
    else if tag == 20 { "MACH_MSG"@ }
    else if tag == 21 { "IOKIT"@ }
    else if tag == 30 { "STACK"@ }
    else if tag == 31 { "GUARD"@ }
    else if tag == 32 { "SHARED_PMAP"@ }
    else if tag == 33 { "DYLIB"@ }
    else if tag == 34 { "OBJC_DISPATCHERS"@ }
    else if tag == 35 { "UNSHARED_PMAP"@ }
    else if tag == 40 { "APPKIT"@ }
    else if tag == 41 { "FOUNDATION"@ }
    else if tag == 42 { "COREGRAPHICS"@ }
    else if tag == 43 { "CORESERVICES"@ }
    else if tag == 44 { "JAVA"@ }
    else if tag == 45 { "COREDATA"@ }
    else if tag == 46 { "COREDATA_OBJECTIDS"@ }
    else if tag == 50 { "ATS"@ }
    else if tag == 51 { "LAYERKIT"@ }
    else if tag == 52 { "CGIMAGE"@ }
    else if tag == 53 { "TCMALLOC"@ }
    else if tag == 54 { "COREGRAPHICS_DATA"@ }
    else if tag == 55 { "COREGRAPHICS_SHARED"@ }
    else if tag == 56 { "COREGRAPHICS_FRAMEBUFFERS"@ }
    else if tag == 57 { "COREGRAPHICS_BACKINGSTORES"@ }
    else if tag == 58 { "COREGRAPHICS_XALLOC"@ }
    else if tag == 60 { "DYLD"@ }
    else if tag == 61 { "DYLD_MALLOC"@ }
    else if tag == 62 { "SQLITE"@ }
    else if tag == 63 { "JAVASCRIPT_CORE"@ }
    else if tag == 64 { "JAVASCRIPT_JIT_EXECUTABLE_ALLOCATOR"@ }
    else if tag == 65 { "JAVASCRIPT_JIT_REGISTER_FILE"@ }
    else if tag == 66 { "GLSL"@ }
    else if tag == 67 { "OPENCL"@ }
    else if tag == 68 { "COREIMAGE"@ }
    else if tag == 69 { "WEBCORE_PURGEABLE_BUFFERS"@ }
    else if tag == 70 { "IMAGEIO"@ }
    else if tag == 71 { "COREPROFILE"@ }
    else if tag == 72 { "ASSETSD"@ }
    else if tag == 73 { "OS_ALLOC_ONCE"@ }
    else if tag == 74 { "LIBDISPATCH"@ }
    else if tag == 75 { "ACCELERATE"@ }
    else if tag == 76 { "COREUI"@ }
    else if tag == 77 { "COREUIFILE"@ }
    else if tag == 78 { "GENEALOGY"@ }
    else if tag == 79 { "RAWCAMERA"@ }
    else if tag == 80 { "CORPSEINFO"@ }
    else if tag == 81 { "ASL"@ }
    else if tag == 82 { "SWIFT_RUNTIME"@ }
    else if tag == 83 { "SWIFT_METADATA"@ }
    else if tag == 84 { "DHMM"@ }
    else if tag == 86 { "SCENEKIT"@ }
    else if tag == 87 { "SKYWALK"@ }
    else if tag == 88 { "IOSURFACE"@ }
    else if tag == 89 { "LIBNETWORK"@ }
    else if tag == 90 { "AUDIO"@ }
    else if tag == 91 { "VIDEOBITSTREAM"@ }
    else if tag == 98 { "ACCOUNTS"@ }
    else if tag == 99 { "SANITIZER"@ }
    else if tag == 100 { "IOACCELERATOR"@ }
    else if tag == 104 { "COLORSYNC"@ }
    else if tag == 105 { "BTINFO"@ }
    else { "TAG_"@ + decimal(tag as nat) }
}

/// Names a region's user tag (see `spec_region_tag`).
pub fn region_tag(tag: u32) -> (r: String)
    ensures
        r@ == spec_region_tag(tag),
{
    let name = if tag == 1 { "MALLOC" }
    else if tag == 2 { "MALLOC_SMALL" }
    else if tag == 3 { "MALLOC_LARGE" }
    else if tag == 4 { "MALLOC_HUGE" }
    else if tag == 5 { "SBRK" }
    else if tag == 6 { "REALLOC" }
    else if tag == 7 { "MALLOC_TINY" }
    else if tag == 8 { "MALLOC_LARGE_REUSABLE" }
    else if tag == 9 { "MALLOC_LARGE_REUSED" }
    else if tag == 10 { "ANALYSIS_TOOL" }
    else if tag == 11 { "MALLOC_NANO" }
    else if tag == 12 { "MALLOC_MEDIUM" }
    else if tag == 20 { "MACH_MSG" }
    else if tag == 21 { "IOKIT" }
    else if tag == 30 { "STACK" }
    else if tag == 31 { "GUARD" }
    else if tag == 32 { "SHARED_PMAP" }
    else if tag == 33 { "DYLIB" }
    else if tag == 34 { "OBJC_DISPATCHERS" }
    else if tag == 35 { "UNSHARED_PMAP" }
    else if tag == 40 { "APPKIT" }
    else if tag == 41 { "FOUNDATION" }
    else if tag == 42 { "COREGRAPHICS" }
    else if tag == 43 { "CORESERVICES" }
    else if tag == 44 { "JAVA" }
    else if tag == 45 { "COREDATA" }
    else if tag == 46 { "COREDATA_OBJECTIDS" }
    else if tag == 50 { "ATS" }
    else if tag == 51 { "LAYERKIT" }
    else if tag == 52 { "CGIMAGE" }
    else if tag == 53 { "TCMALLOC" }
    else if tag == 54 { "COREGRAPHICS_DATA" }
    else if tag == 55 { "COREGRAPHICS_SHARED" }
    else if tag == 56 { "COREGRAPHICS_FRAMEBUFFERS" }
    else if tag == 57 { "COREGRAPHICS_BACKINGSTORES" }
    else if tag == 58 { "COREGRAPHICS_XALLOC" }
    else if tag == 60 { "DYLD" }
    else if tag == 61 { "DYLD_MALLOC" }
    else if tag == 62 { "SQLITE" }
    else if tag == 63 { "JAVASCRIPT_CORE" }
    else if tag == 64 { "JAVASCRIPT_JIT_EXECUTABLE_ALLOCATOR" }
    else if tag == 65 { "JAVASCRIPT_JIT_REGISTER_FILE" }
    else if tag == 66 { "GLSL" }
    else if tag == 67 { "OPENCL" }
    else if tag == 68 { "COREIMAGE" }
    else if tag == 69 { "WEBCORE_PURGEABLE_BUFFERS" }
    else if tag == 70 { "IMAGEIO" }
    else if tag == 71 { "COREPROFILE" }
    else if tag == 72 { "ASSETSD" }
    else if tag == 73 { "OS_ALLOC_ONCE" }
    else if tag == 74 { "LIBDISPATCH" }
    else if tag == 75 { "ACCELERATE" }
    else if tag == 76 { "COREUI" }
    else if tag == 77 { "COREUIFILE" }
    else if tag == 78 { "GENEALOGY" }
    else if tag == 79 { "RAWCAMERA" }
    else if tag == 80 { "CORPSEINFO" }
    else if tag == 81 { "ASL" }
    else if tag == 82 { "SWIFT_RUNTIME" }
    else if tag == 83 { "SWIFT_METADATA" }
    else if tag == 84 { "DHMM" }
    else if tag == 86 { "SCENEKIT" }
    else if tag == 87 { "SKYWALK" }
    else if tag == 88 { "IOSURFACE" }
    else if tag == 89 { "LIBNETWORK" }
    else if tag == 90 { "AUDIO" }
    else if tag == 91 { "VIDEOBITSTREAM" }
    else if tag == 98 { "ACCOUNTS" }
    else if tag == 99 { "SANITIZER" }
    else if tag == 100 { "IOACCELERATOR" }
    else if tag == 104 { "COLORSYNC" }
    else if tag == 105 { "BTINFO" }
    else {
        let mut s = String::from_str("TAG_");
        let digits = decimal_string(tag as u64);
        s.append(digits.as_str());
        return s;
    };
    String::from_str(name)
}


// ── VM region aggregation ────────────────────────────────────────────────────

/// One non-submap region reported by the VM walk: its size in bytes and
/// what the kernel said about it.
#[derive(Clone, Copy)]
pub struct RegionRecord {
    pub size: u64,
    pub info: vm_region_submap_info_64,
}

/// The region type (tag name) under which a record is aggregated.
pub open spec fn record_type(r: RegionRecord) -> Seq<char> {
    spec_region_tag(r.info.user_tag)
}

/// The sum of `f` over the records of `rs` whose region type is `name`.
pub open spec fn type_sum(
    rs: Seq<RegionRecord>,
    name: Seq<char>,
    f: spec_fn(RegionRecord) -> int,
) -> int
    decreases rs.len(),
{
    if rs.len() == 0 {
        0
    } else {
        type_sum(rs.drop_last(), name, f) + if record_type(rs.last()) == name {
            f(rs.last())
        } else {
            0
        }
    }
}

/// Each record counts once.
pub open spec fn count_term() -> spec_fn(RegionRecord) -> int {
    |r: RegionRecord| 1int
}

/// A record's virtual size, as the signed 64-bit value it is stored as.
pub open spec fn virtual_term() -> spec_fn(RegionRecord) -> int {
    |r: RegionRecord| (r.size as i64) as int
}

/// A record's resident bytes.
pub open spec fn resident_term(ps: i64) -> spec_fn(RegionRecord) -> int {
    |r: RegionRecord| r.info.pages_resident as int * ps
}

/// A record's dirty bytes: dirtied pages plus pages shared-now-private.
pub open spec fn dirty_term(ps: i64) -> spec_fn(RegionRecord) -> int {
    |r: RegionRecord| (r.info.pages_dirtied as int + r.info.pages_shared_now_private as int) * ps
}

/// A record's swapped-out bytes.
pub open spec fn swapped_term(ps: i64) -> spec_fn(RegionRecord) -> int {
    |r: RegionRecord| r.info.pages_swapped_out as int * ps
}

/// Share modes counted as private memory (copy-on-write included).
pub open spec fn is_private_mode(m: u8) -> bool {
    m == SM_PRIVATE || m == SM_PRIVATE_ALIASED || m == SM_COW
}

/// Share modes counted as shared memory.
pub open spec fn is_shared_mode(m: u8) -> bool {
    m == SM_SHARED || m == SM_TRUESHARED || m == SM_SHARED_ALIASED
}

/// A record's virtual size if its share mode is private, else nothing.
pub open spec fn private_term() -> spec_fn(RegionRecord) -> int {
    |r: RegionRecord| if is_private_mode(r.info.share_mode) { (r.size as i64) as int } else { 0 }
}

/// A record's virtual size if its share mode is shared, else nothing.
pub open spec fn shared_term() -> spec_fn(RegionRecord) -> int {
    |r: RegionRecord| if is_shared_mode(r.info.share_mode) { (r.size as i64) as int } else { 0 }
}

/// `x` is a value of `i64`.
pub open spec fn fits_i64(x: int) -> bool {
    i64::MIN <= x <= i64::MAX
}

/// Every running total kept for any region type while walking `rs` in
/// order stays within `i64`.
pub open spec fn running_totals_fit(rs: Seq<RegionRecord>, f: spec_fn(RegionRecord) -> int) -> bool {
    forall|k: int, name: Seq<char>|
        0 <= k <= rs.len() ==> fits_i64(#[trigger] type_sum(rs.take(k), name, f))
}

/// A record's page counts, scaled by the page size, are values of `i64`.
pub open spec fn record_terms_fit(r: RegionRecord, ps: i64) -> bool {
    &&& fits_i64(r.info.pages_resident as int * ps)
    &&& fits_i64((r.info.pages_dirtied as int + r.info.pages_shared_now_private as int) * ps)
    &&& fits_i64(r.info.pages_swapped_out as int * ps)
}

/// Aggregating `rs` with page size `ps` stays within `i64` at every step.
pub open spec fn aggregation_fits(rs: Seq<RegionRecord>, ps: i64) -> bool {
    &&& rs.len() <= i64::MAX
    &&& forall|i: int| 0 <= i < rs.len() ==> record_terms_fit(#[trigger] rs[i], ps)
    &&& running_totals_fit(rs, virtual_term())
    &&& running_totals_fit(rs, resident_term(ps))
    &&& running_totals_fit(rs, dirty_term(ps))
    &&& running_totals_fit(rs, swapped_term(ps))
    &&& running_totals_fit(rs, private_term())
    &&& running_totals_fit(rs, shared_term())
}

/// `i` is the first record of `rs` of region type `name`.
pub open spec fn is_first_of_type(rs: Seq<RegionRecord>, i: int, name: Seq<char>) -> bool {
    &&& 0 <= i < rs.len()
    &&& record_type(rs[i]) == name
    &&& forall|j: int| 0 <= j < i ==> record_type(#[trigger] rs[j]) != name
}

/// `v` is the aggregate row of its region type over `rs`: counts and byte
/// totals of all records of that type, and the protection and share mode of
/// the first of them.
pub open spec fn is_type_row(rs: Seq<RegionRecord>, ps: i64, v: VmRegion) -> bool {
    let name = v.region_type@;
    &&& v.region_count == type_sum(rs, name, count_term())
    &&& v.block_count is None
    &&& v.virtual_size == type_sum(rs, name, virtual_term())
    &&& v.resident_size == type_sum(rs, name, resident_term(ps))
    &&& v.dirty_size == type_sum(rs, name, dirty_term(ps))
    &&& v.swapped_size == type_sum(rs, name, swapped_term(ps))
    &&& v.shared_size matches Some(s) && s == type_sum(rs, name, shared_term())
    &&& v.private_size matches Some(p) && p == type_sum(rs, name, private_term())
    &&& exists|i: int|
        #[trigger] is_first_of_type(rs, i, name) && (v.protection matches Some(p)
            && p@ == spec_protection_string(rs[i].info.protection)) && (v.share_mode matches Some(
            m,
        ) && m@ == spec_share_mode_string(rs[i].info.share_mode))
}

/// How a region's bytes count towards private and shared memory, by its
/// share mode: `SM_PRIVATE`, `SM_PRIVATE_ALIASED` and `SM_COW` regions add
/// their size to their type's private bytes, `SM_SHARED`, `SM_TRUESHARED`
/// and `SM_SHARED_ALIASED` regions to its shared bytes, and regions of any
/// other mode to neither. The other types' totals are unchanged.
pub proof fn law_share_mode_accounting(rs: Seq<RegionRecord>, r: RegionRecord, name: Seq<char>)
    ensures
        type_sum(rs.push(r), name, private_term()) == type_sum(rs, name, private_term()) + if record_type(r)
            == name && (r.info.share_mode == SM_PRIVATE || r.info.share_mode == SM_PRIVATE_ALIASED
            || r.info.share_mode == SM_COW) {
            (r.size as i64) as int
        } else {
            0
        },
        type_sum(rs.push(r), name, shared_term()) == type_sum(rs, name, shared_term()) + if record_type(r)
            == name && (r.info.share_mode == SM_SHARED || r.info.share_mode == SM_TRUESHARED
            || r.info.share_mode == SM_SHARED_ALIASED) {
            (r.size as i64) as int
        } else {
            0
        },
{
    assert(rs.push(r).drop_last() =~= rs);
}

/// The row of a single region: one region of its size, whose bytes are
/// private when its share mode is `SM_PRIVATE`, `SM_PRIVATE_ALIASED` or
/// `SM_COW`, shared when it is `SM_SHARED`, `SM_TRUESHARED` or
/// `SM_SHARED_ALIASED`, and neither otherwise.
pub proof fn law_single_region_row(r: RegionRecord, ps: i64, v: VmRegion)
    requires
        is_type_row(seq![r], ps, v),
        v.region_type@ == record_type(r),
    ensures
        v.region_count == 1,
        v.virtual_size == r.size as i64,
        v.private_size == Some(
            if r.info.share_mode == SM_PRIVATE || r.info.share_mode == SM_PRIVATE_ALIASED || r.info.share_mode
                == SM_COW {
                r.size as i64
            } else {
                0i64
            },
        ),
        v.shared_size == Some(
            if r.info.share_mode == SM_SHARED || r.info.share_mode == SM_TRUESHARED || r.info.share_mode
                == SM_SHARED_ALIASED {
                r.size as i64
            } else {
                0i64
            },
        ),
{
    let rs = seq![r];
    let name = v.region_type@;
    let e = Seq::<RegionRecord>::empty();
    assert(rs.drop_last() =~= e);
    assert(rs.last() == r);
    assert(type_sum(e, name, count_term()) == 0);
    assert(type_sum(e, name, virtual_term()) == 0);
    assert(type_sum(e, name, private_term()) == 0);
    assert(type_sum(e, name, shared_term()) == 0);
    assert(type_sum(rs, name, count_term()) == 1);
    assert(type_sum(rs, name, virtual_term()) == (r.size as i64) as int);
    assert(type_sum(rs, name, private_term()) == private_term()(r));
    assert(type_sum(rs, name, shared_term()) == shared_term()(r));
}

/// Adding one more record to a prefix adds its term to the total of its type.
proof fn lemma_type_sum_step(rs: Seq<RegionRecord>, i: int)
    requires
        0 <= i < rs.len(),
    ensures
        forall|name: Seq<char>, f: spec_fn(RegionRecord) -> int|
            #[trigger] type_sum(rs.take(i + 1), name, f) == type_sum(rs.take(i), name, f) + if record_type(
                rs[i],
            ) == name {
                f(rs[i])
            } else {
                0
            },
{
    assert(rs.take(i + 1).drop_last() =~= rs.take(i));
    assert(rs.take(i + 1).last() == rs[i]);
}

/// A type with no record in `rs` has all totals zero.
proof fn lemma_type_sum_absent(rs: Seq<RegionRecord>, name: Seq<char>)
    requires
        forall|t: int| 0 <= t < rs.len() ==> record_type(#[trigger] rs[t]) != name,
    ensures
        forall|f: spec_fn(RegionRecord) -> int| #[trigger] type_sum(rs, name, f) == 0,
    decreases rs.len(),
{
    if rs.len() > 0 {
        lemma_type_sum_absent(rs.drop_last(), name);
        assert(record_type(rs[rs.len() - 1]) != name);
        assert forall|f: spec_fn(RegionRecord) -> int| #[trigger] type_sum(rs, name, f) == 0 by {
            assert(type_sum(rs.drop_last(), name, f) == 0);
        }
    }
}

/// The count of a type never exceeds the number of records.
proof fn lemma_count_bound(rs: Seq<RegionRecord>, name: Seq<char>)
    ensures
        0 <= type_sum(rs, name, count_term()) <= rs.len(),
    decreases rs.len(),
{
    if rs.len() > 0 {
        lemma_count_bound(rs.drop_last(), name);
    }
}

/// Finds the row of region type `name`.
fn find_region(rows: &Vec<VmRegion>, name: &String) -> (r: Option<usize>)
    ensures
        match r {
            Some(j) => j < rows.len() && rows@[j as int].region_type@ == name@,
            None => forall|k: int| 0 <= k < rows.len() ==> rows@[k].region_type@ != name@,
        },
{
    let mut k: usize = 0;
    while k < rows.len()
        invariant
            k <= rows.len(),
            forall|m: int| 0 <= m < k ==> rows@[m].region_type@ != name@,
        decreases rows.len() - k,
    {
        if rows[k].region_type == *name {
            return Some(k);
        }
        k = k + 1;
    }
    None
}

/// The running totals of `f` stay within `i64` over the first `m` steps.
pub open spec fn totals_fit_upto(rs: Seq<RegionRecord>, f: spec_fn(RegionRecord) -> int, m: int) -> bool {
    forall|k: int, name: Seq<char>| 0 <= k <= m ==> fits_i64(#[trigger] type_sum(rs.take(k), name, f))
}

/// Aggregation stays within `i64` over the first `m` records.
pub open spec fn aggregation_fits_upto(rs: Seq<RegionRecord>, ps: i64, m: int) -> bool {
    &&& forall|j: int| 0 <= j < m ==> record_terms_fit(#[trigger] rs[j], ps)
    &&& totals_fit_upto(rs, virtual_term(), m)
    &&& totals_fit_upto(rs, resident_term(ps), m)
    &&& totals_fit_upto(rs, dirty_term(ps), m)
    &&& totals_fit_upto(rs, swapped_term(ps), m)
    &&& totals_fit_upto(rs, private_term(), m)
    &&& totals_fit_upto(rs, shared_term(), m)
}

proof fn lemma_totals_extend(rs: Seq<RegionRecord>, i: int, f: spec_fn(RegionRecord) -> int)
    requires
        0 <= i < rs.len(),
        totals_fit_upto(rs, f, i),
        fits_i64(type_sum(rs.take(i + 1), record_type(rs[i]), f)),
    ensures
        totals_fit_upto(rs, f, i + 1),
{
    lemma_type_sum_step(rs, i);
    assert forall|k: int, name: Seq<char>| 0 <= k <= i + 1 implies fits_i64(
        #[trigger] type_sum(rs.take(k), name, f),
    ) by {
        if k == i + 1 && name != record_type(rs[i]) {
            assert(type_sum(rs.take(i + 1), name, f) == type_sum(rs.take(i), name, f));
        }
    }
}

proof fn lemma_totals_fail(rs: Seq<RegionRecord>, i: int, f: spec_fn(RegionRecord) -> int)
    requires
        0 <= i < rs.len(),
        !fits_i64(type_sum(rs.take(i + 1), record_type(rs[i]), f)),
    ensures
        !running_totals_fit(rs, f),
{
    let name = record_type(rs[i]);
    assert(!fits_i64(type_sum(rs.take(i + 1), name, f)));
}

proof fn lemma_fits_upto_all(rs: Seq<RegionRecord>, ps: i64)
    requires
        rs.len() <= i64::MAX,
        aggregation_fits_upto(rs, ps, rs.len() as int),
    ensures
        aggregation_fits(rs, ps),
{
}

/// Aggregates walked regions by region type: one row per type that occurs,
/// with the number of regions, their virtual, resident, dirty, swapped,
/// shared and private byte totals, and the protection and share mode of the
/// first region of that type. `None` exactly when some running total, or a
/// region's page count times the page size, leaves `i64`.
#[verifier::rlimit(60)]
pub fn aggregate_regions(records: &Vec<RegionRecord>, page_size: i64) -> (out: Option<Vec<VmRegion>>)
    ensures
        out is None <==> !aggregation_fits(records@, page_size),
        out matches Some(rows) ==> {
            &&& forall|k: int| 0 <= k < rows.len() ==> is_type_row(records@, page_size, #[trigger] rows@[k])
            &&& forall|k1: int, k2: int|
                0 <= k1 < rows.len() && 0 <= k2 < rows.len() && k1 != k2 ==> rows@[k1].region_type@
                    != rows@[k2].region_type@
            &&& forall|t: int|
                0 <= t < records.len() ==> exists|k: int|
                    0 <= k < rows.len() && #[trigger] rows@[k].region_type@ == record_type(
                        #[trigger] records@[t],
                    )
        },
{
    let ghost rs = records@;
    let ghost ps = page_size;
    if records.len() as u64 > i64::MAX as u64 {
        return None;
    }
    let mut rows: Vec<VmRegion> = Vec::new();
    let mut i: usize = 0;
    assert(rs.take(0) =~= Seq::<RegionRecord>::empty());
    while i < records.len()
        invariant
            rs == records@,
            ps == page_size,
            rs.len() <= i64::MAX,
            i <= records.len(),
            aggregation_fits_upto(rs, ps, i as int),
            forall|k: int| 0 <= k < rows.len() ==> is_type_row(rs.take(i as int), ps, #[trigger] rows@[k]),
            forall|k1: int, k2: int|
                0 <= k1 < rows.len() && 0 <= k2 < rows.len() && k1 != k2 ==> rows@[k1].region_type@
                    != rows@[k2].region_type@,
            forall|t: int|
                0 <= t < i ==> exists|k: int|
                    0 <= k < rows.len() && #[trigger] rows@[k].region_type@ == record_type(
                        #[trigger] rs[t],
                    ),
        decreases records.len() - i,
    {
        let r = records[i];
        let name = region_tag(r.info.user_tag);
        let ghost pre = rs.take(i as int);
        let ghost post = rs.take(i + 1);
        let ghost old_rows = rows@;
        proof {
            lemma_type_sum_step(rs, i as int);
            lemma_count_bound(post, name@);
        }
        let resident = match (r.info.pages_resident as i64).checked_mul(page_size) {
            Some(v) => v,
            None => return None,
        };
        let dirty = match (r.info.pages_dirtied as i64 + r.info.pages_shared_now_private as i64).checked_mul(page_size) {
            Some(v) => v,
            None => return None,
        };
        let swapped = match (r.info.pages_swapped_out as i64).checked_mul(page_size) {
            Some(v) => v,
            None => return None,
        };
        assert(record_terms_fit(rs[i as int], ps));
        let mode = r.info.share_mode;
        let private_add: i64 = if mode == SM_PRIVATE || mode == SM_PRIVATE_ALIASED || mode == SM_COW {
            r.size as i64
        } else {
            0
        };
        let shared_add: i64 = if mode == SM_SHARED || mode == SM_TRUESHARED || mode == SM_SHARED_ALIASED {
            r.size as i64
        } else {
            0
        };
        match find_region(&rows, &name) {
            Some(j) => {
                let ghost v = old_rows[j as int];
                assert(is_type_row(pre, ps, v));
                let old_shared = match rows[j].shared_size { Some(s) => s, None => 0 };
                let old_private = match rows[j].private_size { Some(p) => p, None => 0 };
                let new_virtual = match rows[j].virtual_size.checked_add(r.size as i64) {
                    Some(x) => x,
                    None => {
                        proof { lemma_totals_fail(rs, i as int, virtual_term()); }
                        return None;
                    },
                };
                let new_resident = match rows[j].resident_size.checked_add(resident) {
                    Some(x) => x,
                    None => {
                        proof { lemma_totals_fail(rs, i as int, resident_term(ps)); }
                        return None;
                    },
                };
                let new_dirty = match rows[j].dirty_size.checked_add(dirty) {
                    Some(x) => x,
                    None => {
                        proof { lemma_totals_fail(rs, i as int, dirty_term(ps)); }
                        return None;
                    },
                };
                let new_swapped = match rows[j].swapped_size.checked_add(swapped) {
                    Some(x) => x,
                    None => {
                        proof { lemma_totals_fail(rs, i as int, swapped_term(ps)); }
                        return None;
                    },
                };
                let new_shared = match old_shared.checked_add(shared_add) {
                    Some(x) => x,
                    None => {
                        proof { lemma_totals_fail(rs, i as int, shared_term()); }
                        return None;
                    },
                };
                let new_private = match old_private.checked_add(private_add) {
                    Some(x) => x,
                    None => {
                        proof { lemma_totals_fail(rs, i as int, private_term()); }
                        return None;
                    },
                };
                let mut e = rows.remove(j);
                e.region_count = e.region_count + 1;
                e.virtual_size = new_virtual;
                e.resident_size = new_resident;
                e.dirty_size = new_dirty;
                e.swapped_size = new_swapped;
                e.shared_size = Some(new_shared);
                e.private_size = Some(new_private);
                rows.insert(j, e);
                proof {
                    lemma_totals_extend(rs, i as int, virtual_term());
                    lemma_totals_extend(rs, i as int, resident_term(ps));
                    lemma_totals_extend(rs, i as int, dirty_term(ps));
                    lemma_totals_extend(rs, i as int, swapped_term(ps));
                    lemma_totals_extend(rs, i as int, shared_term());
                    lemma_totals_extend(rs, i as int, private_term());
                    assert(rows@ =~= old_rows.update(j as int, e));
                    let w = choose|w: int|
                        #[trigger] is_first_of_type(pre, w, name@) && (v.protection matches Some(
                            p,
                        ) && p@ == spec_protection_string(pre[w].info.protection)) && (
                        v.share_mode matches Some(m) && m@ == spec_share_mode_string(
                            pre[w].info.share_mode,
                        ));
                    assert(is_first_of_type(post, w, name@));
                    assert(is_type_row(post, ps, e));
                    assert forall|k: int| 0 <= k < rows.len() implies is_type_row(
                        post,
                        ps,
                        #[trigger] rows@[k],
                    ) by {
                        if k != j {
                            let u = old_rows[k];
                            assert(is_type_row(pre, ps, u));
                            let w2 = choose|w2: int|
                                #[trigger] is_first_of_type(pre, w2, u.region_type@) && (
                                u.protection matches Some(p) && p@ == spec_protection_string(
                                    pre[w2].info.protection,
                                )) && (u.share_mode matches Some(m) && m@
                                    == spec_share_mode_string(pre[w2].info.share_mode));
                            assert(is_first_of_type(post, w2, u.region_type@));
                        }
                    }
                    assert forall|t: int| 0 <= t < i + 1 implies exists|k: int|
                        0 <= k < rows.len() && #[trigger] rows@[k].region_type@ == record_type(
                            #[trigger] rs[t],
                        ) by {
                        if t == i {
                            assert(rows@[j as int].region_type@ == record_type(rs[t]));
                        } else {
                            let k = choose|k: int|
                                0 <= k < old_rows.len() && #[trigger] old_rows[k].region_type@
                                    == record_type(rs[t]);
                            assert(rows@[k].region_type@ == record_type(rs[t]));
                        }
                    }
                }
            },
            None => {
                proof {
                    assert forall|t: int| 0 <= t < pre.len() implies record_type(#[trigger] pre[t])
                        != name@ by {
                        let k = choose|k: int|
                            0 <= k < old_rows.len() && #[trigger] old_rows[k].region_type@
                                == record_type(rs[t]);
                    }
                    lemma_type_sum_absent(pre, name@);
                    lemma_totals_extend(rs, i as int, virtual_term());
                    lemma_totals_extend(rs, i as int, resident_term(ps));
                    lemma_totals_extend(rs, i as int, dirty_term(ps));
                    lemma_totals_extend(rs, i as int, swapped_term(ps));
                    lemma_totals_extend(rs, i as int, shared_term());
                    lemma_totals_extend(rs, i as int, private_term());
                }
                let e = VmRegion {
                    region_type: name,
                    region_count: 1,
                    block_count: None,
                    virtual_size: r.size as i64,
                    resident_size: resident,
                    dirty_size: dirty,
                    swapped_size: swapped,
                    shared_size: Some(shared_add),
                    private_size: Some(private_add),
                    protection: Some(protection_string(r.info.protection)),
                    share_mode: Some(share_mode_string(r.info.share_mode)),
                };
                rows.push(e);
                proof {
                    assert(is_first_of_type(post, i as int, e.region_type@));
                    assert(is_type_row(post, ps, e));
                    assert forall|k: int| 0 <= k < rows.len() implies is_type_row(
                        post,
                        ps,
                        #[trigger] rows@[k],
                    ) by {
                        if k < old_rows.len() {
                            let u = old_rows[k];
                            assert(is_type_row(pre, ps, u));
                            let w2 = choose|w2: int|
                                #[trigger] is_first_of_type(pre, w2, u.region_type@) && (
                                u.protection matches Some(p) && p@ == spec_protection_string(
                                    pre[w2].info.protection,
                                )) && (u.share_mode matches Some(m) && m@
                                    == spec_share_mode_string(pre[w2].info.share_mode));
                            assert(is_first_of_type(post, w2, u.region_type@));
                        }
                    }
                    assert forall|t: int| 0 <= t < i + 1 implies exists|k: int|
                        0 <= k < rows.len() && #[trigger] rows@[k].region_type@ == record_type(
                            #[trigger] rs[t],
                        ) by {
                        if t == i {
                            assert(rows@[old_rows.len() as int].region_type@ == record_type(rs[t]));
                        } else {
                            let k = choose|k: int|
                                0 <= k < old_rows.len() && #[trigger] old_rows[k].region_type@
                                    == record_type(rs[t]);
                            assert(rows@[k].region_type@ == record_type(rs[t]));
                        }
                    }
                }
            },
        }
        i = i + 1;
    }
    assert(rs.take(rs.len() as int) =~= rs);
    proof { lemma_fits_upto_all(rs, ps); }
    Some(rows)
}

// ── Errors ───────────────────────────────────────────────────────────────────

/// Why a platform query failed.
#[derive(Clone, Copy, Debug, PartialEq, Eq)]
pub enum PlatformError {
    /// `proc_listallpids` reported no process count.
    ListPidsFailed,
    /// `proc_listallpids` filled no entry.
    NoPids,
    /// `proc_pidpath` failed for the process.
    PathFailed { pid: i32 },
    /// The path buffer held no terminating NUL.
    InvalidPath,
    /// `ps` exited unsuccessfully for the process.
    PsFailed { pid: i32 },
    /// `ps` printed something that is not UTF-8.
    PsNotUtf8,
    /// `ps` printed a start time that does not parse.
    BadStartTime,
    /// `proc_pidinfo(PROC_PIDTASKINFO)` did not fill the whole record.
    TaskInfoShort { pid: i32 },
    /// `task_for_pid` returned a non-success kernel status.
    TaskForPidFailed { pid: i32, kr: i32 },
    /// `task_info(TASK_VM_INFO)` returned a non-success kernel status.
    VmInfoFailed { pid: i32, kr: i32 },
}

/// The kernel's success status.
pub const KERN_SUCCESS: i32 = 0;

// ── Process discovery ────────────────────────────────────────────────────────

/// Entries to allocate for the pid listing, given the count
/// `proc_listallpids` reported: 16 more than reported.
pub fn pid_buffer_len(count: i32) -> (r: Result<usize, PlatformError>)
    ensures
        count <= 0 ==> r == Err::<usize, PlatformError>(PlatformError::ListPidsFailed),
        count > 0 ==> r == Ok::<usize, PlatformError>((count + 16) as usize),
{
    if count <= 0 {
        return Err(PlatformError::ListPidsFailed);
    }
    Ok(count as usize + 16)
}

/// The pids worth probing: the first `filled` entries of the listing, those
/// that are positive, in order.
pub open spec fn probe_pids(buf: Seq<i32>, filled: int) -> Seq<i32> {
    buf.take(if filled < buf.len() { filled } else { buf.len() as int }).filter(|p: i32| p > 0)
}

/// The pids to probe from a listing that `proc_listallpids` filled with
/// `filled` entries.
pub fn pids_to_probe(buf: &Vec<i32>, filled: i32) -> (r: Result<Vec<i32>, PlatformError>)
    ensures
        filled <= 0 ==> r == Err::<Vec<i32>, PlatformError>(PlatformError::NoPids),
        filled > 0 ==> (r matches Ok(v) && v@ == probe_pids(buf@, filled as int)),
{
    if filled <= 0 {
        return Err(PlatformError::NoPids);
    }
    let end: usize = if (filled as usize) < buf.len() { filled as usize } else { buf.len() };
    let ghost prefix = buf@.take(end as int);
    let mut out: Vec<i32> = Vec::new();
    let mut i: usize = 0;
    while i < end
        invariant
            end <= buf.len(),
            prefix == buf@.take(end as int),
            i <= end,
            out@ == prefix.take(i as int).filter(|p: i32| p > 0),
        decreases end - i,
    {
        let p = buf[i];
        proof {
            assert(prefix.take(i + 1).drop_last() =~= prefix.take(i as int));
            reveal_with_fuel(Seq::filter, 1);
        }
        if p > 0 {
            out.push(p);
        }
        i = i + 1;
    }
    assert(prefix.take(end as int) =~= prefix);
    Ok(out)
}

/// `path` names an Emacs binary: its file name is `emacs` in any ASCII case.
pub open spec fn is_emacs_path(path: Seq<char>) -> bool {
    file_name(path) matches Some(c) && eq_ignore_ascii_case(c, "emacs"@)
}

/// Whether the path names an Emacs binary.
pub fn is_emacs_binary(path: &str) -> (r: bool)
    ensures
        r == is_emacs_path(path@),
{
    proof { reveal_strlit("emacs"); }
    match file_name_of(path) {
        Some(name) => str_eq_ignore_ascii_case(name, "emacs"),
        None => false,
    }
}

/// The pids whose probed binary path names an Emacs binary, in order;
/// processes whose path could not be read are skipped.
pub open spec fn emacs_pid_seq(probed: Seq<(i32, Option<String>)>) -> Seq<i32>
    decreases probed.len(),
{
    if probed.len() == 0 {
        Seq::empty()
    } else {
        let rest = emacs_pid_seq(probed.drop_last());
        match probed.last().1 {
            Some(p) => if is_emacs_path(p@) { rest.push(probed.last().0) } else { rest },
            None => rest,
        }
    }
}

/// A probed process is an Emacs: its binary path was read and names an
/// Emacs binary.
pub open spec fn is_emacs_entry(e: (i32, Option<String>)) -> bool {
    e.1 matches Some(p) && is_emacs_path(p@)
}

/// `pids` are the pids of the probed entries at the increasing positions
/// `idx`, those positions hold Emacs processes, and every Emacs process
/// among `probed` is at one of them.
pub open spec fn selects_emacs_entries(probed: Seq<(i32, Option<String>)>, idx: Seq<int>, pids: Seq<i32>) -> bool {
    &&& idx.len() == pids.len()
    &&& forall|k: int|
        0 <= k < idx.len() ==> 0 <= #[trigger] idx[k] < probed.len() && pids[k] == probed[idx[k]].0
            && is_emacs_entry(probed[idx[k]])
    &&& forall|k1: int, k2: int| 0 <= k1 < k2 < idx.len() ==> #[trigger] idx[k1] < #[trigger] idx[k2]
    &&& forall|i: int|
        0 <= i < probed.len() && is_emacs_entry(#[trigger] probed[i]) ==> exists|k: int|
            0 <= k < idx.len() && #[trigger] idx[k] == i
}

proof fn lemma_emacs_selection(probed: Seq<(i32, Option<String>)>) -> (idx: Seq<int>)
    ensures
        selects_emacs_entries(probed, idx, emacs_pid_seq(probed)),
    decreases probed.len(),
{
    if probed.len() == 0 {
        Seq::empty()
    } else {
        let n = probed.len() - 1;
        let pre = probed.drop_last();
        let prev = lemma_emacs_selection(pre);
        let rest = emacs_pid_seq(pre);
        assert forall|i: int| 0 <= i < n implies #[trigger] probed[i] == pre[i] by {}
        if is_emacs_entry(probed.last()) {
            let idx = prev.push(n);
            let pids = rest.push(probed.last().0);
            assert(emacs_pid_seq(probed) == pids);
            assert forall|k: int| 0 <= k < idx.len() implies 0 <= #[trigger] idx[k] < probed.len()
                && pids[k] == probed[idx[k]].0 && is_emacs_entry(probed[idx[k]]) by {
                if k < prev.len() {
                    assert(idx[k] == prev[k]);
                    assert(probed[prev[k]] == pre[prev[k]]);
                }
            }
            assert forall|k1: int, k2: int| 0 <= k1 < k2 < idx.len() implies #[trigger] idx[k1]
                < #[trigger] idx[k2] by {
                assert(idx[k1] == prev[k1]);
                if k2 < prev.len() {
                    assert(idx[k2] == prev[k2]);
                }
            }
            assert forall|i: int| 0 <= i < probed.len() && is_emacs_entry(#[trigger] probed[i]) implies exists|
                k: int,
            | 0 <= k < idx.len() && #[trigger] idx[k] == i by {
                if i == n {
                    assert(idx[prev.len() as int] == i);
                } else {
                    assert(is_emacs_entry(pre[i]));
                    let k = choose|k: int| 0 <= k < prev.len() && #[trigger] prev[k] == i;
                    assert(idx[k] == i);
                }
            }
            idx
        } else {
            assert(emacs_pid_seq(probed) == rest);
            assert forall|k: int| 0 <= k < prev.len() implies 0 <= #[trigger] prev[k] < probed.len()
                && rest[k] == probed[prev[k]].0 && is_emacs_entry(probed[prev[k]]) by {
                assert(probed[prev[k]] == pre[prev[k]]);
            }
            assert forall|i: int| 0 <= i < probed.len() && is_emacs_entry(#[trigger] probed[i]) implies exists|
                k: int,
            | 0 <= k < prev.len() && #[trigger] prev[k] == i by {
                assert(i != n);
                assert(is_emacs_entry(pre[i]));
            }
            prev
        }
    }
}

/// The Emacs pids are exactly the pids of the probed Emacs processes, in
/// probe order, one per such process: every probed process whose path names
/// an Emacs binary is kept, even when another process runs the same binary,
/// and no other process is.
pub proof fn law_emacs_pids_keep_every_emacs(probed: Seq<(i32, Option<String>)>)
    ensures
        exists|idx: Seq<int>| selects_emacs_entries(probed, idx, #[trigger] emacs_pid_seq(probed)) && idx.len() >= 0,
        forall|i: int|
            0 <= i < probed.len() && is_emacs_entry(#[trigger] probed[i]) ==> emacs_pid_seq(probed).contains(
                probed[i].0,
            ),
{
    let idx = lemma_emacs_selection(probed);
    let pids = emacs_pid_seq(probed);
    assert forall|i: int| 0 <= i < probed.len() && is_emacs_entry(#[trigger] probed[i]) implies pids.contains(
        probed[i].0,
    ) by {
        let k = choose|k: int| 0 <= k < idx.len() && #[trigger] idx[k] == i;
        assert(pids[k] == probed[i].0);
    }
}

/// Keeps the pids whose binary path names an Emacs binary.
pub fn emacs_pids(probed: &Vec<(i32, Option<String>)>) -> (r: Vec<i32>)
    ensures
        r@ == emacs_pid_seq(probed@),
{
    let mut out: Vec<i32> = Vec::new();
    let mut i: usize = 0;
    while i < probed.len()
        invariant
            i <= probed.len(),
            out@ == emacs_pid_seq(probed@.take(i as int)),
        decreases probed.len() - i,
    {
        proof {
            assert(probed@.take(i + 1).drop_last() =~= probed@.take(i as int));
        }
        match &probed[i].1 {
            Some(p) => {
                if is_emacs_binary(p.as_str()) {
                    out.push(probed[i].0);
                }
            },
            None => {},
        }
        i = i + 1;
    }
    assert(probed@.take(probed.len() as int) =~= probed@);
    out
}

// ── Process metadata ─────────────────────────────────────────────────────────

/// The bytes of `buf` before its first NUL, when it holds one.
pub open spec fn until_nul(buf: Seq<u8>) -> Option<Seq<u8>> {
    if exists|i: int| 0 <= i < buf.len() && buf[i] == 0 {
        let i = choose|i: int| 0 <= i < buf.len() && buf[i] == 0 && forall|j: int| 0 <= j < i ==> buf[j] != 0;
        Some(buf.take(i))
    } else {
        None
    }
}

/// The binary path `proc_pidpath` wrote into `buf` with status `ret`: the
/// bytes before the first NUL, decoded as UTF-8 with invalid sequences
/// replaced.
pub fn binary_path_from_buffer(pid: i32, ret: i32, buf: &[u8]) -> (r: Result<String, PlatformError>)
    ensures
        ret <= 0 ==> r == Err::<String, PlatformError>(PlatformError::PathFailed { pid }),
        ret > 0 && until_nul(buf@) is None ==> r == Err::<String, PlatformError>(PlatformError::InvalidPath),
        ret > 0 && until_nul(buf@) is Some ==> (r matches Ok(p) && p@ == lossy_decoded(until_nul(buf@)->0)),
{
    if ret <= 0 {
        return Err(PlatformError::PathFailed { pid });
    }
    let mut i: usize = 0;
    while i < buf.len() && buf[i] != 0
        invariant
            i <= buf.len(),
            forall|j: int| 0 <= j < i ==> buf@[j] != 0,
        decreases buf.len() - i,
    {
        i = i + 1;
    }
    if i == buf.len() {
        return Err(PlatformError::InvalidPath);
    }
    let mut bytes: Vec<u8> = Vec::new();
    let mut k: usize = 0;
    while k < i
        invariant
            k <= i < buf.len(),
            bytes@ == buf@.take(k as int),
        decreases i - k,
    {
        bytes.push(buf[k]);
        assert(buf@.take(k + 1) =~= buf@.take(k as int).push(buf@[k as int]));
        k = k + 1;
    }
    proof {
        let c = choose|c: int| 0 <= c < buf@.len() && buf@[c] == 0 && forall|j: int| 0 <= j < c ==> buf@[j] != 0;
        assert(buf@[i as int] == 0);
        assert(c == i);
    }
    Ok(utf8_lossy_string(bytes.as_slice()))
}

/// What `NaiveDateTime::parse_from_str(s, "%a %b %e %H:%M:%S %Y")` followed
/// by `.and_utc().timestamp()` gives for `s`.
pub uninterp spec fn lstart_timestamp(s: Seq<char>) -> Option<i64>;

/// Calls chrono's `NaiveDateTime::parse_from_str` with the `ps -o lstart`
/// format `%a %b %e %H:%M:%S %Y` (e.g. `Sat Mar 21 17:12:57 2026`), read as
/// UTC, and `timestamp`: seconds since the Unix epoch, or none when `s` does
/// not parse.
#[verifier::external_body]
fn parse_lstart(s: &str) -> (r: Option<i64>)
    ensures
        r == lstart_timestamp(s@),
{
    chrono::NaiveDateTime::parse_from_str(s, "%a %b %e %H:%M:%S %Y").ok().map(|dt| dt.and_utc().timestamp())
}

/// The start time of process `pid` from what `ps -p <pid> -o lstart=` did:
/// whether it exited successfully, and what it printed.
pub fn start_time_from_ps(pid: i32, success: bool, stdout: Vec<u8>) -> (r: Result<i64, PlatformError>)
    ensures
        !success ==> r == Err::<i64, PlatformError>(PlatformError::PsFailed { pid }),
        success && !valid_utf8(stdout@) ==> r == Err::<i64, PlatformError>(PlatformError::PsNotUtf8),
        success && valid_utf8(stdout@) ==> exists|t: Seq<char>|
            {
                &&& is_trim_of(t, decode_utf8(stdout@))
                &&& match lstart_timestamp(t) {
                    Some(ts) => r == Ok::<i64, PlatformError>(ts),
                    None => r == Err::<i64, PlatformError>(PlatformError::BadStartTime),
                }
            },
{
    if !success {
        return Err(PlatformError::PsFailed { pid });
    }
    let text = match utf8_string(stdout) {
        Some(s) => s,
        None => return Err(PlatformError::PsNotUtf8),
    };
    let trimmed = trim(text.as_str());
    match parse_lstart(trimmed) {
        Some(ts) => Ok(ts),
        None => Err(PlatformError::BadStartTime),
    }
}

// ── CPU ──────────────────────────────────────────────────────────────────────

/// CPU counters from a `proc_taskinfo` record that `proc_pidinfo` returned
/// with status `ret`; the record is only trusted when `ret` is its full size
/// `expected`. Times are converted from nanoseconds to whole milliseconds.
pub fn cpu_from_taskinfo(pid: i32, ret: i32, expected: i32, info: &proc_taskinfo) -> (r: Result<CpuData, PlatformError>)
    ensures
        ret != expected ==> r == Err::<CpuData, PlatformError>(PlatformError::TaskInfoShort { pid }),
        ret == expected ==> r == Ok::<CpuData, PlatformError>(CpuData {
            user_ms: (info.pti_total_user / 1_000_000) as i64,
            system_ms: (info.pti_total_system / 1_000_000) as i64,
            messages_sent: info.pti_messages_sent as i64,
            messages_received: info.pti_messages_received as i64,
            syscalls_mach: info.pti_syscalls_mach as i64,
            syscalls_unix: info.pti_syscalls_unix as i64,
            context_switches: info.pti_csw as i64,
        }),
{
    if ret != expected {
        return Err(PlatformError::TaskInfoShort { pid });
    }
    Ok(CpuData {
        user_ms: (info.pti_total_user / 1_000_000) as i64,
        system_ms: (info.pti_total_system / 1_000_000) as i64,
        messages_sent: info.pti_messages_sent as i64,
        messages_received: info.pti_messages_received as i64,
        syscalls_mach: info.pti_syscalls_mach as i64,
        syscalls_unix: info.pti_syscalls_unix as i64,
        context_switches: info.pti_csw as i64,
    })
}

// ── Memory ───────────────────────────────────────────────────────────────────

/// Checks the status of `task_for_pid`: the task port when it succeeded.
pub fn task_port_from(pid: i32, kr: i32, task: u32) -> (r: Result<u32, PlatformError>)
    ensures
        kr != KERN_SUCCESS ==> r == Err::<u32, PlatformError>(PlatformError::TaskForPidFailed { pid, kr }),
        kr == KERN_SUCCESS ==> r == Ok::<u32, PlatformError>(task),
{
    if kr != KERN_SUCCESS {
        return Err(PlatformError::TaskForPidFailed { pid, kr });
    }
    Ok(task)
}

/// Memory figures from `task_info(TASK_VM_INFO)` (status `kr`) and the
/// resident peak from `proc_taskinfo`.
pub fn memory_from_vm_info(pid: i32, kr: i32, info: &task_vm_info, ptask: &proc_taskinfo) -> (r: Result<MemoryData, PlatformError>)
    ensures
        kr != KERN_SUCCESS ==> r == Err::<MemoryData, PlatformError>(PlatformError::VmInfoFailed { pid, kr }),
        kr == KERN_SUCCESS ==> r == Ok::<MemoryData, PlatformError>(MemoryData {
            virt_size: info.virtual_size as i64,
            resident_size: info.resident_size as i64,
            resident_size_peak: ptask.pti_resident_size as i64,
            phys_footprint: info.phys_footprint as i64,
            phys_footprint_peak: info.ledger_phys_footprint_peak as i64,
            private_size: Some(info.internal as i64),
            shared_size: Some(info.external as i64),
            swapped_size: Some(info.compressed as i64),
            purgeable_volatile: Some(info.purgeable_volatile_resident as i64),
            purgeable_nonvolatile: Some(info.ledger_purgeable_nonvolatile as i64),
        }),
{
    if kr != KERN_SUCCESS {
        return Err(PlatformError::VmInfoFailed { pid, kr });
    }
    Ok(MemoryData {
        virt_size: info.virtual_size as i64,
        resident_size: info.resident_size as i64,
        resident_size_peak: ptask.pti_resident_size as i64,
        phys_footprint: info.phys_footprint as i64,
        phys_footprint_peak: info.ledger_phys_footprint_peak as i64,
        private_size: Some(info.internal as i64),
        shared_size: Some(info.external as i64),
        swapped_size: Some(info.compressed as i64),
        purgeable_volatile: Some(info.purgeable_volatile_resident as i64),
        purgeable_nonvolatile: Some(info.ledger_purgeable_nonvolatile as i64),
    })
}

// ── VM region walk ───────────────────────────────────────────────────────────

/// The address the region walk starts at.
pub const WALK_START_ADDRESS: u64 = 1;

/// The submap depth the walk asks for at each new region.
pub const WALK_DEPTH: u32 = 1024;

/// What the region walk does after one `mach_vm_region_recurse` call.
#[derive(Clone, Copy, Debug, PartialEq, Eq)]
pub enum WalkStep {
    /// The call failed: the end of the map was reached.
    Stop,
    /// The region is a submap: query the same address one level deeper.
    Descend { depth: u32 },
    /// The region is recorded; continue after it at the walk depth.
    Record { next_address: u64, depth: u32 },
}

/// The next step of the region walk, given the call's status, the region's
/// address and size, the depth asked for, and whether it is a submap.
pub fn region_walk_step(kr: i32, address: u64, size: u64, depth: u32, is_submap: i32) -> (r: WalkStep)
    requires
        kr == KERN_SUCCESS && is_submap != 0 ==> depth < u32::MAX,
        kr == KERN_SUCCESS && is_submap == 0 ==> address + size <= u64::MAX,
    ensures
        kr != KERN_SUCCESS ==> r == WalkStep::Stop,
        kr == KERN_SUCCESS && is_submap != 0 ==> r == (WalkStep::Descend { depth: (depth + 1) as u32 }),
        kr == KERN_SUCCESS && is_submap == 0 ==> r == (WalkStep::Record {
            next_address: (address + size) as u64,
            depth: WALK_DEPTH,
        }),
{
    if kr != KERN_SUCCESS {
        WalkStep::Stop
    } else if is_submap != 0 {
        WalkStep::Descend { depth: depth + 1 }
    } else {
        WalkStep::Record { next_address: address + size, depth: WALK_DEPTH }
    }
}

// ── Meta ─────────────────────────────────────────────────────────────────────

/// The OS version from what `sw_vers -productVersion` printed (none when it
/// could not run): the trimmed output when it is UTF-8, else `unknown`.
pub fn os_version_from_output(stdout: Option<Vec<u8>>) -> (r: String)
    ensures
        match stdout {
            Some(bytes) => if valid_utf8(bytes@) {
                is_trim_of(r@, decode_utf8(bytes@))
            } else {
                r@ == "unknown"@
            },
            None => r@ == "unknown"@,
        },
{
    match stdout {
        Some(bytes) => match utf8_string(bytes) {
            Some(s) => String::from_str(trim(s.as_str())),
            None => String::from_str("unknown"),
        },
        None => String::from_str("unknown"),
    }
}

/// The bytes of the version 4 UUID made from 16 random bytes, as
/// `uuid::Builder::from_random_bytes` makes them: the high nibble of byte 6
/// becomes the version 4 and the top two bits of byte 8 the variant `10`;
/// every other bit is random.
pub open spec fn v4_uuid_bytes(r: Seq<u8>) -> Seq<u8> {
    r.update(6, (r[6] & 0x0fu8) | 0x40u8).update(8, (r[8] & 0x3fu8) | 0x80u8)
}

/// The user's UUID from the outcome of asking the system for 16 random
/// bytes: the hyphenated lower-case version 4 UUID made from them, none when
/// the system gave no randomness.
pub fn user_uuid_from_random(random: Result<[u8; 16], getrandom::Error>) -> (r: Option<String>)
    ensures
        match random {
            Ok(b) => r matches Some(s) && s@ == hyphenated(v4_uuid_bytes(b@)),
            Err(_) => r is None,
        },
{
    match random {
        Ok(b) => {
            let bytes: [u8; 16] = [
                b[0],
                b[1],
                b[2],
                b[3],
                b[4],
                b[5],
                (b[6] & 0x0fu8) | 0x40u8,
                b[7],
                (b[8] & 0x3fu8) | 0x80u8,
                b[9],
                b[10],
                b[11],
                b[12],
                b[13],
                b[14],
                b[15],
            ];
            assert(bytes@ =~= v4_uuid_bytes(b@));
            Some(hyphenated_string(&bytes))
        },
        Err(_) => None,
    }
}

/// A fresh random (version 4) UUID in hyphenated lower-case form; it
/// identifies the database without identifying the user. None when the
/// system has no randomness to give.
pub fn generate_user_uuid() -> (r: Option<String>)
    ensures
        r matches Some(s) ==> exists|b: Seq<u8>| b.len() == 16 && s@ == hyphenated(v4_uuid_bytes(b)),
        r matches Some(s) ==> s@.len() == 36 && s@[14] == '4',
        r matches Some(s) ==> s@[19] == '8' || s@[19] == '9' || s@[19] == 'a' || s@[19] == 'b',
{
    let random = match random_bytes(16) {
        Ok(v) => Ok([
            v[0], v[1], v[2], v[3], v[4], v[5], v[6], v[7], v[8], v[9], v[10], v[11], v[12], v[13], v[14], v[15],
        ]),
        Err(e) => Err(e),
    };
    proof {
        if let Ok(b) = random {
            law_v4_uuid_layout(b@);
            law_hyphenated_layout(v4_uuid_bytes(b@));
            let hi = v4_uuid_bytes(b@)[8] / 16;
            assert(8 <= hi < 12);
        }
    }
    user_uuid_from_random(random)
}

/// Every user UUID carries version 4 and the RFC 4122 variant; the rest of
/// its bits are the random bytes it was made from.
pub proof fn law_v4_uuid_layout(r: Seq<u8>)
    requires
        r.len() == 16,
    ensures
        v4_uuid_bytes(r).len() == 16,
        v4_uuid_bytes(r)[6] / 16 == 4,
        v4_uuid_bytes(r)[6] % 16 == r[6] % 16,
        v4_uuid_bytes(r)[8] / 64 == 2,
        v4_uuid_bytes(r)[8] % 64 == r[8] % 64,
        forall|i: int| 0 <= i < 16 && i != 6 && i != 8 ==> #[trigger] v4_uuid_bytes(r)[i] == r[i],
{
    let r6 = r[6];
    let r8 = r[8];
    assert(((r6 & 0x0fu8) | 0x40u8) / 16 == 4 && ((r6 & 0x0fu8) | 0x40u8) % 16 == r6 % 16) by (bit_vector);
    assert(((r8 & 0x3fu8) | 0x80u8) / 64 == 2 && ((r8 & 0x3fu8) | 0x80u8) % 64 == r8 % 64) by (bit_vector);
}

// ── Totals are conserved by aggregation ──────────────────────────────────────

/// The sum of `f` over all records.
pub open spec fn total(rs: Seq<RegionRecord>, f: spec_fn(RegionRecord) -> int) -> int
    decreases rs.len(),
{
    if rs.len() == 0 { 0 } else { total(rs.drop_last(), f) + f(rs.last()) }
}

/// The sum of `g` over aggregate rows.
pub open spec fn rows_sum(rows: Seq<VmRegion>, g: spec_fn(VmRegion) -> int) -> int
    decreases rows.len(),
{
    if rows.len() == 0 { 0 } else { rows_sum(rows.drop_last(), g) + g(rows.last()) }
}

/// A row's region count.
pub open spec fn row_count() -> spec_fn(VmRegion) -> int {
    |v: VmRegion| v.region_count as int
}

/// A row's virtual size.
pub open spec fn row_virtual() -> spec_fn(VmRegion) -> int {
    |v: VmRegion| v.virtual_size as int
}

/// A row's resident size.
pub open spec fn row_resident() -> spec_fn(VmRegion) -> int {
    |v: VmRegion| v.resident_size as int
}

/// A row's dirty size.
pub open spec fn row_dirty() -> spec_fn(VmRegion) -> int {
    |v: VmRegion| v.dirty_size as int
}

/// A row's swapped size.
pub open spec fn row_swapped() -> spec_fn(VmRegion) -> int {
    |v: VmRegion| v.swapped_size as int
}

/// A row's shared size (0 when absent).
pub open spec fn row_shared() -> spec_fn(VmRegion) -> int {
    |v: VmRegion| match v.shared_size { Some(s) => s as int, None => 0 }
}

/// A row's private size (0 when absent).
pub open spec fn row_private() -> spec_fn(VmRegion) -> int {
    |v: VmRegion| match v.private_size { Some(p) => p as int, None => 0 }
}

/// The sum over the region types `names` of their totals of `f`.
spec fn names_sum(rs: Seq<RegionRecord>, names: Seq<Seq<char>>, f: spec_fn(RegionRecord) -> int) -> int
    decreases names.len(),
{
    if names.len() == 0 {
        0
    } else {
        names_sum(rs, names.drop_last(), f) + type_sum(rs, names.last(), f)
    }
}

/// `c`, counted once for each occurrence of `x` in `names`.
spec fn indicator_sum(names: Seq<Seq<char>>, x: Seq<char>, c: int) -> int
    decreases names.len(),
{
    if names.len() == 0 {
        0
    } else {
        indicator_sum(names.drop_last(), x, c) + if names.last() == x { c } else { 0 }
    }
}

proof fn lemma_indicator_once(names: Seq<Seq<char>>, x: Seq<char>, c: int)
    requires
        names.no_duplicates(),
    ensures
        indicator_sum(names, x, c) == if names.contains(x) { c } else { 0 },
    decreases names.len(),
{
    if names.len() > 0 {
        let rest = names.drop_last();
        assert(rest.no_duplicates());
        lemma_indicator_once(rest, x, c);
        if names.last() == x {
            assert(!rest.contains(x));
        } else {
            if names.contains(x) {
                let i = choose|i: int| 0 <= i < names.len() && names[i] == x;
                assert(rest[i] == x);
            }
            if rest.contains(x) {
                let i = choose|i: int| 0 <= i < rest.len() && rest[i] == x;
                assert(names[i] == x);
            }
        }
    }
}

proof fn lemma_names_sum_step(rs: Seq<RegionRecord>, names: Seq<Seq<char>>, f: spec_fn(RegionRecord) -> int)
    requires
        rs.len() > 0,
    ensures
        names_sum(rs, names, f) == names_sum(rs.drop_last(), names, f) + indicator_sum(
            names,
            record_type(rs.last()),
            f(rs.last()),
        ),
    decreases names.len(),
{
    if names.len() > 0 {
        lemma_names_sum_step(rs, names.drop_last(), f);
    }
}

proof fn lemma_names_sum_total(rs: Seq<RegionRecord>, names: Seq<Seq<char>>, f: spec_fn(RegionRecord) -> int)
    requires
        names.no_duplicates(),
        forall|t: int| 0 <= t < rs.len() ==> names.contains(record_type(#[trigger] rs[t])),
    ensures
        names_sum(rs, names, f) == total(rs, f),
    decreases rs.len(),
{
    if rs.len() > 0 {
        let rest = rs.drop_last();
        assert forall|t: int| 0 <= t < rest.len() implies names.contains(record_type(#[trigger] rest[t])) by {
            assert(rest[t] == rs[t]);
        }
        lemma_names_sum_total(rest, names, f);
        lemma_names_sum_step(rs, names, f);
        lemma_indicator_once(names, record_type(rs.last()), f(rs.last()));
        assert(names.contains(record_type(rs[rs.len() - 1])));
    } else {
        lemma_names_sum_empty(rs, names, f);
    }
}

proof fn lemma_names_sum_empty(rs: Seq<RegionRecord>, names: Seq<Seq<char>>, f: spec_fn(RegionRecord) -> int)
    requires
        rs.len() == 0,
    ensures
        names_sum(rs, names, f) == 0,
    decreases names.len(),
{
    if names.len() > 0 {
        lemma_names_sum_empty(rs, names.drop_last(), f);
    }
}

proof fn lemma_rows_sum_names(
    rs: Seq<RegionRecord>,
    rows: Seq<VmRegion>,
    f: spec_fn(RegionRecord) -> int,
    g: spec_fn(VmRegion) -> int,
)
    requires
        forall|k: int| 0 <= k < rows.len() ==> g(#[trigger] rows[k]) == type_sum(rs, rows[k].region_type@, f),
    ensures
        rows_sum(rows, g) == names_sum(rs, rows.map_values(|v: VmRegion| v.region_type@), f),
    decreases rows.len(),
{
    let names = rows.map_values(|v: VmRegion| v.region_type@);
    if rows.len() > 0 {
        let rest = rows.drop_last();
        assert forall|k: int| 0 <= k < rest.len() implies g(#[trigger] rest[k]) == type_sum(rs, rest[k].region_type@, f) by {
            assert(rest[k] == rows[k]);
        }
        lemma_rows_sum_names(rs, rest, f, g);
        assert(names.drop_last() =~= rest.map_values(|v: VmRegion| v.region_type@));
        assert(g(rows[rows.len() - 1]) == type_sum(rs, rows[rows.len() - 1].region_type@, f));
    }
}

/// Aggregation loses and invents nothing: over the rows it produces, the
/// region counts add up to the number of regions walked, and each byte
/// total adds up to the same total over all regions.
pub proof fn law_region_totals_conserved(rs: Seq<RegionRecord>, ps: i64, rows: Seq<VmRegion>)
    requires
        forall|k: int| 0 <= k < rows.len() ==> is_type_row(rs, ps, #[trigger] rows[k]),
        forall|k1: int, k2: int|
            0 <= k1 < rows.len() && 0 <= k2 < rows.len() && k1 != k2 ==> rows[k1].region_type@
                != rows[k2].region_type@,
        forall|t: int|
            0 <= t < rs.len() ==> exists|k: int|
                0 <= k < rows.len() && #[trigger] rows[k].region_type@ == record_type(#[trigger] rs[t]),
    ensures
        rows_sum(rows, row_count()) == rs.len(),
        rows_sum(rows, row_virtual()) == total(rs, virtual_term()),
        rows_sum(rows, row_resident()) == total(rs, resident_term(ps)),
        rows_sum(rows, row_dirty()) == total(rs, dirty_term(ps)),
        rows_sum(rows, row_swapped()) == total(rs, swapped_term(ps)),
        rows_sum(rows, row_shared()) == total(rs, shared_term()),
        rows_sum(rows, row_private()) == total(rs, private_term()),
{
    let names = rows.map_values(|v: VmRegion| v.region_type@);
    assert(names.no_duplicates()) by {
        assert forall|i: int, j: int| 0 <= i < names.len() && 0 <= j < names.len() && i != j
            implies names[i] != names[j] by {
            assert(rows[i].region_type@ != rows[j].region_type@);
        }
    }
    assert forall|t: int| 0 <= t < rs.len() implies names.contains(record_type(#[trigger] rs[t])) by {
        let k = choose|k: int| 0 <= k < rows.len() && #[trigger] rows[k].region_type@ == record_type(rs[t]);
        assert(names[k] == record_type(rs[t]));
    }
    lemma_rows_sum_names(rs, rows, count_term(), row_count());
    lemma_names_sum_total(rs, names, count_term());
    lemma_count_is_len(rs);
    lemma_rows_sum_names(rs, rows, virtual_term(), row_virtual());
    lemma_names_sum_total(rs, names, virtual_term());
    lemma_rows_sum_names(rs, rows, resident_term(ps), row_resident());
    lemma_names_sum_total(rs, names, resident_term(ps));
    lemma_rows_sum_names(rs, rows, dirty_term(ps), row_dirty());
    lemma_names_sum_total(rs, names, dirty_term(ps));
    lemma_rows_sum_names(rs, rows, swapped_term(ps), row_swapped());
    lemma_names_sum_total(rs, names, swapped_term(ps));
    lemma_rows_sum_names(rs, rows, shared_term(), row_shared());
    lemma_names_sum_total(rs, names, shared_term());
    lemma_rows_sum_names(rs, rows, private_term(), row_private());
    lemma_names_sum_total(rs, names, private_term());
}

proof fn lemma_count_is_len(rs: Seq<RegionRecord>)
    ensures
        total(rs, count_term()) == rs.len(),
    decreases rs.len(),
{
    if rs.len() > 0 {
        lemma_count_is_len(rs.drop_last());
    }
}

} // verus!
