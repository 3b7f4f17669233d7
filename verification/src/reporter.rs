//! The reporter's sampling state: which Emacs processes it has recorded, and
//! the baseline each process's next sample is measured against.
use std::collections::HashMap;
use vstd::prelude::*;
use crate::clock::{elapsed_secs, secs_since_epoch};
use std::time::{Duration, SystemTimeError};
use crate::text::{is_trim_of, trim, utf8_string};
use vstd::utf8::{decode_utf8, valid_utf8};
use crate::extra_data::{EnergyData, IoData, ThreadData};
use crate::platform::{fits_i64, CpuData};

verus! {

broadcast use vstd::std_specs::hash::group_hash_axioms;

/// A process's identity across restarts: its pid and start time.
#[derive(Clone, Copy, Debug, PartialEq, Eq, Hash, Structural)]
pub struct ProcessKey {
    pub pid: i32,
    pub start_time: i64,
}

/// What the reporter keeps about a process it has recorded.
pub struct ProcessInfo {
    pub db_id: i64,
    pub binary_path: String,
}

/// CPU counters at the last committed sample of a process.
#[derive(Clone, Copy, Debug, PartialEq, Eq, Structural)]
pub struct CpuBaseline {
    pub user_ms: i64,
    pub system_ms: i64,
    pub context_switches: i64,
    pub sampled_at: i64,
}

/// Fault, I/O and energy counters at the last committed sample of a
/// process.
#[derive(Clone, Copy, Debug, PartialEq, Eq, Structural)]
pub struct ExtraBaseline {
    pub faults_total: i64,
    pub faults_cow: i64,
    pub pageins: i64,
    pub bytes_read: i64,
    pub bytes_written: i64,
    pub logical_writes: i64,
    pub cpu_energy_nj: i64,
    pub gpu_time_ms: i64,
}

/// The differences a sample is stored with. All are absent for the first
/// sample of a process. `busy_ms` is the user plus system CPU time of the
/// interval, present only when the interval is positive; the utilisation
/// percentage is `busy_ms / interval_ms * 100`.
#[derive(Clone, Copy, Debug, PartialEq, Eq, Structural)]
pub struct SampleDeltas {
    pub delta_user_ms: Option<i64>,
    pub delta_system_ms: Option<i64>,
    pub interval_ms: Option<i64>,
    pub busy_ms: Option<i64>,
    pub delta_csw: Option<i64>,
    pub delta_faults: Option<i64>,
    pub delta_cow: Option<i64>,
    pub delta_pageins: Option<i64>,
    pub delta_bytes_read: Option<i64>,
    pub delta_bytes_written: Option<i64>,
    pub delta_logical_writes: Option<i64>,
    pub delta_cpu_energy_nj: Option<i64>,
    pub delta_gpu_time_ms: Option<i64>,
}

/// The CPU baseline a committed sample leaves behind.
pub open spec fn cpu_baseline_of(now: i64, cpu: CpuData) -> CpuBaseline {
    CpuBaseline {
        user_ms: cpu.user_ms,
        system_ms: cpu.system_ms,
        context_switches: cpu.context_switches,
        sampled_at: now,
    }
}

/// The fault and I/O baseline a committed sample leaves behind.
pub open spec fn extra_baseline_of(threads: ThreadData, io: IoData, energy: EnergyData) -> ExtraBaseline {
    ExtraBaseline {
        faults_total: threads.faults_total,
        faults_cow: threads.faults_cow,
        pageins: threads.pageins,
        bytes_read: io.bytes_read,
        bytes_written: io.bytes_written,
        logical_writes: io.logical_writes,
        cpu_energy_nj: energy.cpu_energy_nj,
        gpu_time_ms: energy.gpu_time_ms,
    }
}

/// The interval since the baseline, in milliseconds.
pub open spec fn interval_of(b: CpuBaseline, now: i64) -> int {
    (now - b.sampled_at) * 1000
}

/// Computing the differences against these baselines stays within `i64`.
pub open spec fn deltas_fit(
    cpu_b: Option<CpuBaseline>,
    extra_b: Option<ExtraBaseline>,
    now: i64,
    cpu: CpuData,
    threads: ThreadData,
    io: IoData,
    energy: EnergyData,
) -> bool {
    &&& cpu_b matches Some(b) ==> {
        &&& fits_i64(cpu.user_ms - b.user_ms)
        &&& fits_i64(cpu.system_ms - b.system_ms)
        &&& fits_i64(cpu.context_switches - b.context_switches)
        &&& fits_i64(now - b.sampled_at)
        &&& fits_i64(interval_of(b, now))
        &&& interval_of(b, now) > 0 ==> fits_i64(
            (cpu.user_ms - b.user_ms) + (cpu.system_ms - b.system_ms),
        )
    }
    &&& extra_b matches Some(e) ==> {
        &&& fits_i64(threads.faults_total - e.faults_total)
        &&& fits_i64(threads.faults_cow - e.faults_cow)
        &&& fits_i64(threads.pageins - e.pageins)
        &&& fits_i64(io.bytes_read - e.bytes_read)
        &&& fits_i64(io.bytes_written - e.bytes_written)
        &&& fits_i64(io.logical_writes - e.logical_writes)
        &&& fits_i64(energy.cpu_energy_nj - e.cpu_energy_nj)
        &&& fits_i64(energy.gpu_time_ms - e.gpu_time_ms)
    }
}

/// The differences of a new sample against the baselines (absent ones give
/// absent differences).
pub open spec fn expected_deltas(
    cpu_b: Option<CpuBaseline>,
    extra_b: Option<ExtraBaseline>,
    now: i64,
    cpu: CpuData,
    threads: ThreadData,
    io: IoData,
    energy: EnergyData,
) -> SampleDeltas {
    SampleDeltas {
        delta_user_ms: match cpu_b {
            Some(b) => Some((cpu.user_ms - b.user_ms) as i64),
            None => None,
        },
        delta_system_ms: match cpu_b {
            Some(b) => Some((cpu.system_ms - b.system_ms) as i64),
            None => None,
        },
        interval_ms: match cpu_b {
            Some(b) => Some(interval_of(b, now) as i64),
            None => None,
        },
        busy_ms: match cpu_b {
            Some(b) => if interval_of(b, now) > 0 {
                Some(((cpu.user_ms - b.user_ms) + (cpu.system_ms - b.system_ms)) as i64)
            } else {
                None
            },
            None => None,
        },
        delta_csw: match cpu_b {
            Some(b) => Some((cpu.context_switches - b.context_switches) as i64),
            None => None,
        },
        delta_faults: match extra_b {
            Some(e) => Some((threads.faults_total - e.faults_total) as i64),
            None => None,
        },
        delta_cow: match extra_b {
            Some(e) => Some((threads.faults_cow - e.faults_cow) as i64),
            None => None,
        },
        delta_pageins: match extra_b {
            Some(e) => Some((threads.pageins - e.pageins) as i64),
            None => None,
        },
        delta_bytes_read: match extra_b {
            Some(e) => Some((io.bytes_read - e.bytes_read) as i64),
            None => None,
        },
        delta_bytes_written: match extra_b {
            Some(e) => Some((io.bytes_written - e.bytes_written) as i64),
            None => None,
        },
        delta_logical_writes: match extra_b {
            Some(e) => Some((io.logical_writes - e.logical_writes) as i64),
            None => None,
        },
        delta_cpu_energy_nj: match extra_b {
            Some(e) => Some((energy.cpu_energy_nj - e.cpu_energy_nj) as i64),
            None => None,
        },
        delta_gpu_time_ms: match extra_b {
            Some(e) => Some((energy.gpu_time_ms - e.gpu_time_ms) as i64),
            None => None,
        },
    }
}

/// An entry of the table of recorded processes.
struct KnownProcess {
    key: ProcessKey,
    info: ProcessInfo,
}

/// The recorded processes and, per database id, the baselines of their last
/// committed sample.
pub struct Tracker {
    known: Vec<KnownProcess>,
    cpu_baselines: HashMap<i64, CpuBaseline>,
    extra_baselines: HashMap<i64, ExtraBaseline>,
}

impl Tracker {
    /// Each process key is recorded at most once, and a process has a CPU
    /// baseline exactly when it has a fault and I/O baseline.
    #[verifier::type_invariant]
    spec fn keys_unique(self) -> bool {
        &&& forall|i: int, j: int|
            0 <= i < self.known.len() && 0 <= j < self.known.len() && i != j
                ==> #[trigger] self.known@[i].key != #[trigger] self.known@[j].key
        &&& self.cpu_baselines@.dom() == self.extra_baselines@.dom()
    }

    /// The recorded processes, by key.
    pub closed spec fn processes(self) -> Map<ProcessKey, ProcessInfo> {
        Map::new(
            |k: ProcessKey| exists|i: int| 0 <= i < self.known.len() && self.known@[i].key == k,
            |k: ProcessKey|
                self.known@[choose|i: int| 0 <= i < self.known.len() && self.known@[i].key == k].info,
        )
    }

    /// The CPU baseline of each database id.
    pub closed spec fn cpu_baselines(self) -> Map<i64, CpuBaseline> {
        self.cpu_baselines@
    }

    /// The fault and I/O baseline of each database id.
    pub closed spec fn extra_baselines(self) -> Map<i64, ExtraBaseline> {
        self.extra_baselines@
    }

    /// A tracker with no process recorded and no baseline.
    pub fn new() -> (t: Tracker)
        ensures
            t.processes() == Map::<ProcessKey, ProcessInfo>::empty(),
            t.cpu_baselines() == Map::<i64, CpuBaseline>::empty(),
            t.extra_baselines() == Map::<i64, ExtraBaseline>::empty(),
    {
        let t = Tracker { known: Vec::new(), cpu_baselines: HashMap::new(), extra_baselines: HashMap::new() };
        assert(t.processes() =~= Map::<ProcessKey, ProcessInfo>::empty());
        t
    }

    fn find(&self, key: &ProcessKey) -> (r: Option<usize>)
        ensures
            match r {
                Some(i) => i < self.known.len() && self.known@[i as int].key == *key,
                None => forall|i: int| 0 <= i < self.known.len() ==> self.known@[i].key != *key,
            },
    {
        let mut i: usize = 0;
        while i < self.known.len()
            invariant
                i <= self.known.len(),
                forall|j: int| 0 <= j < i ==> self.known@[j].key != *key,
            decreases self.known.len() - i,
        {
            if self.known[i].key == *key {
                return Some(i);
            }
            i = i + 1;
        }
        None
    }

    /// The database id of a recorded process, if it is recorded.
    pub fn process_db_id(&self, key: &ProcessKey) -> (r: Option<i64>)
        ensures
            match r {
                Some(id) => self.processes().contains_key(*key) && self.processes()[*key].db_id == id,
                None => !self.processes().contains_key(*key),
            },
    {
        proof { use_type_invariant(self); }
        match self.find(key) {
            Some(i) => {
                proof {
                    let c = choose|j: int| 0 <= j < self.known.len() && self.known@[j].key == *key;
                    assert(c == i as int);
                }
                Some(self.known[i].info.db_id)
            },
            None => None,
        }
    }

    /// Records a process under its key, replacing what was recorded for that
    /// key before.
    pub fn remember_process(&mut self, key: ProcessKey, info: ProcessInfo)
        ensures
            final(self).processes() == old(self).processes().insert(key, info),
            final(self).cpu_baselines() == old(self).cpu_baselines(),
            final(self).extra_baselines() == old(self).extra_baselines(),
    {
        proof { use_type_invariant(&*self); }
        let ghost old_known = self.known@;
        let ghost old_map = self.processes();
        let ghost mut w: int = 0;
        match self.find(&key) {
            Some(i) => {
                let mut known = Vec::new();
                std::mem::swap(&mut known, &mut self.known);
                known.set(i, KnownProcess { key, info });
                self.known = known;
                proof { w = i as int; }
            },
            None => {
                let mut known = Vec::new();
                std::mem::swap(&mut known, &mut self.known);
                known.push(KnownProcess { key, info });
                self.known = known;
                proof { w = old_known.len() as int; }
            },
        }
        proof {
            let nk = self.known@;
            assert(0 <= w < nk.len() && nk[w].key == key && nk[w].info == info);
            assert(forall|j: int| 0 <= j < nk.len() && j != w ==> j < old_known.len() && #[trigger] nk[j] == old_known[j]);
            assert(forall|j: int| 0 <= j < old_known.len() && old_known[j].key != key ==> #[trigger] nk[j] == old_known[j]);
            let target = old_map.insert(key, info);
            assert forall|k: ProcessKey| #[trigger] self.processes().dom().contains(k) == target.dom().contains(k) by {
                if k == key {
                    assert(nk[w].key == k);
                } else {
                    if old_map.dom().contains(k) {
                        let j = choose|j: int| 0 <= j < old_known.len() && old_known[j].key == k;
                        assert(nk[j].key == k);
                    }
                    if self.processes().dom().contains(k) {
                        let j = choose|j: int| 0 <= j < nk.len() && nk[j].key == k;
                        assert(old_known[j].key == k);
                    }
                }
            }
            assert forall|k: ProcessKey| self.processes().dom().contains(k) implies #[trigger] self.processes()[k]
                == target[k] by {
                let j = choose|j: int| 0 <= j < nk.len() && nk[j].key == k;
                if k == key {
                    assert(j == w);
                } else {
                    let j0 = choose|j0: int| 0 <= j0 < old_known.len() && old_known[j0].key == k;
                    assert(nk[j0].key == k);
                    assert(j == j0);
                }
            }
            assert(self.processes() =~= target);
        }
    }

    /// Whether computing the differences of a sample of process `db_id`
    /// would leave `i64`.
    pub fn deltas_overflow(&self, db_id: i64, now: i64, cpu: &CpuData, threads: &ThreadData, io: &IoData, energy: &EnergyData) -> (r: bool)
        ensures
            r == !deltas_fit(
                self.cpu_baselines().get(db_id),
                self.extra_baselines().get(db_id),
                now,
                *cpu,
                *threads,
                *io,
                *energy,
            ),
    {
        let cpu_ok = match self.cpu_baselines.get(&db_id) {
            Some(b) => {
                let du = cpu.user_ms as i128 - b.user_ms as i128;
                let ds = cpu.system_ms as i128 - b.system_ms as i128;
                let dc = cpu.context_switches as i128 - b.context_switches as i128;
                let gap = now as i128 - b.sampled_at as i128;
                let in_range = |x: i128| -> (r: bool)
                    ensures r == fits_i64(x as int)
                    { i64::MIN as i128 <= x && x <= i64::MAX as i128 };
                if in_range(du) && in_range(ds) && in_range(dc) && in_range(gap) {
                    let iv = gap * 1000;
                    in_range(iv) && (iv <= 0 || in_range(du + ds))
                } else {
                    false
                }
            },
            None => true,
        };
        let extra_ok = match self.extra_baselines.get(&db_id) {
            Some(e) => {
                let in_range = |x: i128| -> (r: bool)
                    ensures r == fits_i64(x as int)
                    { i64::MIN as i128 <= x && x <= i64::MAX as i128 };
                in_range(threads.faults_total as i128 - e.faults_total as i128)
                    && in_range(threads.faults_cow as i128 - e.faults_cow as i128)
                    && in_range(threads.pageins as i128 - e.pageins as i128)
                    && in_range(io.bytes_read as i128 - e.bytes_read as i128)
                    && in_range(io.bytes_written as i128 - e.bytes_written as i128)
                    && in_range(io.logical_writes as i128 - e.logical_writes as i128)
                    && in_range(energy.cpu_energy_nj as i128 - e.cpu_energy_nj as i128)
                    && in_range(energy.gpu_time_ms as i128 - e.gpu_time_ms as i128)
            },
            None => true,
        };
        !(cpu_ok && extra_ok)
    }

    /// The differences a new sample of process `db_id` is stored with,
    /// measured against the baselines of its last committed sample.
    pub fn sample_deltas(&self, db_id: i64, now: i64, cpu: &CpuData, threads: &ThreadData, io: &IoData, energy: &EnergyData) -> (r: SampleDeltas)
        requires
            deltas_fit(
                self.cpu_baselines().get(db_id),
                self.extra_baselines().get(db_id),
                now,
                *cpu,
                *threads,
                *io,
                *energy,
            ),
        ensures
            r == expected_deltas(
                self.cpu_baselines().get(db_id),
                self.extra_baselines().get(db_id),
                now,
                *cpu,
                *threads,
                *io,
                *energy,
            ),
    {
        let (delta_user_ms, delta_system_ms, interval_ms, busy_ms, delta_csw) = match self.cpu_baselines.get(&db_id) {
            Some(b) => {
                let du = cpu.user_ms - b.user_ms;
                let ds = cpu.system_ms - b.system_ms;
                let iv = (now - b.sampled_at) * 1000;
                let busy = if iv > 0 { Some(du + ds) } else { None };
                (Some(du), Some(ds), Some(iv), busy, Some(cpu.context_switches - b.context_switches))
            },
            None => (None, None, None, None, None),
        };
        let (delta_faults, delta_cow, delta_pageins, delta_bytes_read, delta_bytes_written, delta_logical_writes) =
            match self.extra_baselines.get(&db_id) {
            Some(e) => (
                Some(threads.faults_total - e.faults_total),
                Some(threads.faults_cow - e.faults_cow),
                Some(threads.pageins - e.pageins),
                Some(io.bytes_read - e.bytes_read),
                Some(io.bytes_written - e.bytes_written),
                Some(io.logical_writes - e.logical_writes),
            ),
            None => (None, None, None, None, None, None),
        };
        let (delta_cpu_energy_nj, delta_gpu_time_ms) = match self.extra_baselines.get(&db_id) {
            Some(e) => (
                Some(energy.cpu_energy_nj - e.cpu_energy_nj),
                Some(energy.gpu_time_ms - e.gpu_time_ms),
            ),
            None => (None, None),
        };
        SampleDeltas {
            delta_user_ms,
            delta_system_ms,
            interval_ms,
            busy_ms,
            delta_csw,
            delta_faults,
            delta_cow,
            delta_pageins,
            delta_bytes_read,
            delta_bytes_written,
            delta_logical_writes,
            delta_cpu_energy_nj,
            delta_gpu_time_ms,
        }
    }

    /// After a sample of process `db_id` was committed, makes it the
    /// baseline the next sample of that process is measured against.
    pub fn commit_sample(&mut self, db_id: i64, now: i64, cpu: &CpuData, threads: &ThreadData, io: &IoData, energy: &EnergyData)
        ensures
            final(self).cpu_baselines() == old(self).cpu_baselines().insert(db_id, cpu_baseline_of(now, *cpu)),
            final(self).extra_baselines() == old(self).extra_baselines().insert(
                db_id,
                extra_baseline_of(*threads, *io, *energy),
            ),
            final(self).processes() == old(self).processes(),
    {
        proof { use_type_invariant(&*self); }
        let mut whole = Tracker::new();
        std::mem::swap(&mut whole, self);
        let Tracker { known, mut cpu_baselines, mut extra_baselines } = whole;
        cpu_baselines.insert(
            db_id,
            CpuBaseline {
                user_ms: cpu.user_ms,
                system_ms: cpu.system_ms,
                context_switches: cpu.context_switches,
                sampled_at: now,
            },
        );
        extra_baselines.insert(
            db_id,
            ExtraBaseline {
                faults_total: threads.faults_total,
                faults_cow: threads.faults_cow,
                pageins: threads.pageins,
                bytes_read: io.bytes_read,
                bytes_written: io.bytes_written,
                logical_writes: io.logical_writes,
                cpu_energy_nj: energy.cpu_energy_nj,
                gpu_time_ms: energy.gpu_time_ms,
            },
        );
        *self = Tracker { known, cpu_baselines, extra_baselines };
    }
}

/// Whether the `meta` row exists, given how many rows with id 1 the table
/// holds; it is written only when it does not.
pub fn meta_row_exists(count: i64) -> (r: bool)
    ensures
        r == (count > 0),
{
    count > 0
}

/// Seconds since the Unix epoch as stored in the database (0 when the clock
/// reads before the epoch): the whole seconds of a clock reading, as `i64`.
pub fn unix_now() -> (t: i64)
    ensures
        exists|elapsed: Result<Duration, SystemTimeError>| t == elapsed_secs(elapsed) as i64,
{
    let s = secs_since_epoch();
    let t = s as i64;
    proof {
        let elapsed = choose|elapsed: Result<Duration, SystemTimeError>| s == elapsed_secs(elapsed);
        assert(t == elapsed_secs(elapsed) as i64);
    }
    t
}

/// Whether `PRAGMA integrity_check` reported a sound database: its answer is
/// exactly `ok`.
pub fn integrity_ok(report: &str) -> (r: bool)
    ensures
        r == (report@ == "ok"@),
{
    String::from_str(report) == String::from_str("ok")
}

/// What one `emacs --batch --eval` probe yields, from whether it exited
/// successfully and what it printed: the trimmed output when it succeeded,
/// printed UTF-8, and the trimmed text is not empty.
pub fn probe_output(success: bool, stdout: Vec<u8>) -> (r: Option<String>)
    ensures
        !success ==> r is None,
        success && !valid_utf8(stdout@) ==> r is None,
        success && valid_utf8(stdout@) ==> exists|t: Seq<char>|
            {
                &&& is_trim_of(t, decode_utf8(stdout@))
                &&& t.len() == 0 ==> r is None
                &&& t.len() > 0 ==> (r matches Some(s) && s@ == t)
            },
{
    if !success {
        return None;
    }
    match utf8_string(stdout) {
        Some(text) => {
            let t = trim(text.as_str());
            if t.unicode_len() == 0 {
                None
            } else {
                Some(String::from_str(t))
            }
        },
        None => None,
    }
}

// ── Laws ─────────────────────────────────────────────────────────────────────

/// A sample is measured against the last committed sample of its process:
/// each difference is the change of its counter since then, the interval is
/// the time since then in milliseconds, and the busy time is present exactly
/// when that interval is positive.
pub proof fn law_deltas_measure_from_last_commit(
    cpu_map: Map<i64, CpuBaseline>,
    extra_map: Map<i64, ExtraBaseline>,
    db_id: i64,
    then: i64,
    cpu0: CpuData,
    threads0: ThreadData,
    io0: IoData,
    energy0: EnergyData,
    now: i64,
    cpu1: CpuData,
    threads1: ThreadData,
    io1: IoData,
    energy1: EnergyData,
)
    requires
        deltas_fit(
            Some(cpu_baseline_of(then, cpu0)),
            Some(extra_baseline_of(threads0, io0, energy0)),
            now,
            cpu1,
            threads1,
            io1,
            energy1,
        ),
    ensures
        ({
            let d = expected_deltas(
                cpu_map.insert(db_id, cpu_baseline_of(then, cpu0)).get(db_id),
                extra_map.insert(db_id, extra_baseline_of(threads0, io0, energy0)).get(db_id),
                now,
                cpu1,
                threads1,
                io1,
                energy1,
            );
            &&& d.delta_user_ms matches Some(x) && x == cpu1.user_ms - cpu0.user_ms
            &&& d.delta_system_ms matches Some(x) && x == cpu1.system_ms - cpu0.system_ms
            &&& d.interval_ms matches Some(x) && x == (now - then) * 1000
            &&& (d.busy_ms is Some <==> now > then)
            &&& d.busy_ms matches Some(x) ==> x == (cpu1.user_ms - cpu0.user_ms) + (cpu1.system_ms
                - cpu0.system_ms)
            &&& d.delta_csw matches Some(x) && x == cpu1.context_switches - cpu0.context_switches
            &&& d.delta_faults matches Some(x) && x == threads1.faults_total - threads0.faults_total
            &&& d.delta_cow matches Some(x) && x == threads1.faults_cow - threads0.faults_cow
            &&& d.delta_pageins matches Some(x) && x == threads1.pageins - threads0.pageins
            &&& d.delta_bytes_read matches Some(x) && x == io1.bytes_read - io0.bytes_read
            &&& d.delta_bytes_written matches Some(x) && x == io1.bytes_written - io0.bytes_written
            &&& d.delta_logical_writes matches Some(x) && x == io1.logical_writes - io0.logical_writes
            &&& d.delta_cpu_energy_nj matches Some(x) && x == energy1.cpu_energy_nj - energy0.cpu_energy_nj
            &&& d.delta_gpu_time_ms matches Some(x) && x == energy1.gpu_time_ms - energy0.gpu_time_ms
        }),
{
    assert(cpu_map.insert(db_id, cpu_baseline_of(then, cpu0)).get(db_id) == Some(cpu_baseline_of(then, cpu0)));
    assert(extra_map.insert(db_id, extra_baseline_of(threads0, io0, energy0)).get(db_id) == Some(
        extra_baseline_of(threads0, io0, energy0),
    ));
}

/// The first sample of a process, one with no committed sample yet, is
/// stored without any difference.
pub proof fn law_first_sample_has_no_deltas(
    cpu_map: Map<i64, CpuBaseline>,
    extra_map: Map<i64, ExtraBaseline>,
    db_id: i64,
    now: i64,
    cpu: CpuData,
    threads: ThreadData,
    io: IoData,
    energy: EnergyData,
)
    requires
        !cpu_map.contains_key(db_id),
        !extra_map.contains_key(db_id),
    ensures
        expected_deltas(cpu_map.get(db_id), extra_map.get(db_id), now, cpu, threads, io, energy) == (SampleDeltas {
            delta_user_ms: None,
            delta_system_ms: None,
            interval_ms: None,
            busy_ms: None,
            delta_csw: None,
            delta_faults: None,
            delta_cow: None,
            delta_pageins: None,
            delta_bytes_read: None,
            delta_bytes_written: None,
            delta_logical_writes: None,
            delta_cpu_energy_nj: None,
            delta_gpu_time_ms: None,
        }),
{
}

/// Committing a sample of one process leaves the differences of every other
/// process's next sample unchanged.
pub proof fn law_commit_leaves_other_processes(
    cpu_map: Map<i64, CpuBaseline>,
    extra_map: Map<i64, ExtraBaseline>,
    db_id: i64,
    then: i64,
    cpu0: CpuData,
    threads0: ThreadData,
    io0: IoData,
    energy0: EnergyData,
    other: i64,
    now: i64,
    cpu1: CpuData,
    threads1: ThreadData,
    io1: IoData,
    energy1: EnergyData,
)
    requires
        other != db_id,
    ensures
        expected_deltas(
            cpu_map.insert(db_id, cpu_baseline_of(then, cpu0)).get(other),
            extra_map.insert(db_id, extra_baseline_of(threads0, io0, energy0)).get(other),
            now,
            cpu1,
            threads1,
            io1,
            energy1,
        ) == expected_deltas(cpu_map.get(other), extra_map.get(other), now, cpu1, threads1, io1, energy1),
{
    assert(cpu_map.insert(db_id, cpu_baseline_of(then, cpu0)).get(other) == cpu_map.get(other));
    assert(extra_map.insert(db_id, extra_baseline_of(threads0, io0, energy0)).get(other) == extra_map.get(
        other,
    ));
}

/// A process is identified by its pid and start time: once recorded, the
/// same key finds the same database id, and recording it leaves every other
/// process as it was.
pub proof fn law_process_identity(m: Map<ProcessKey, ProcessInfo>, key: ProcessKey, info: ProcessInfo, other: ProcessKey)
    requires
        other != key,
    ensures
        m.insert(key, info).contains_key(key),
        m.insert(key, info)[key].db_id == info.db_id,
        m.insert(key, info).contains_key(other) == m.contains_key(other),
        m.contains_key(other) ==> m.insert(key, info)[other] == m[other],
{
}

} // verus!
