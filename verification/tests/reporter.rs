use emacs_reporter::extra_data::{EnergyData, IoData, ThreadData};
use emacs_reporter::platform::CpuData;
use emacs_reporter::reporter::{integrity_ok, meta_row_exists, probe_output, unix_now, ProcessInfo, ProcessKey, Tracker};

fn cpu(user: i64, system: i64) -> CpuData {
    CpuData { user_ms: user, system_ms: system, messages_sent: 0, messages_received: 0, syscalls_mach: 0, syscalls_unix: 0, context_switches: 0 }
}

fn threads(faults: i64, cow: i64, pageins: i64) -> ThreadData {
    ThreadData { thread_count: 4, running_count: 1, faults_total: faults, faults_cow: cow, pageins }
}

fn io(r: i64, w: i64, l: i64) -> IoData {
    IoData { bytes_read: r, bytes_written: w, logical_writes: l }
}

fn energy(nj: i64, gpu: i64) -> EnergyData {
    EnergyData { cpu_energy_nj: nj, gpu_time_ms: gpu }
}

#[test]
fn process_identity_by_pid_and_start_time() {
    let mut t = Tracker::new();
    let key = ProcessKey { pid: 100, start_time: 1_700_000_000 };
    let restarted = ProcessKey { pid: 100, start_time: 1_700_000_500 };
    assert_eq!(t.process_db_id(&key), None);
    t.remember_process(key, ProcessInfo { db_id: 1, binary_path: "/usr/bin/emacs".to_string() });
    assert_eq!(t.process_db_id(&key), Some(1));
    assert_eq!(t.process_db_id(&restarted), None);
    t.remember_process(restarted, ProcessInfo { db_id: 2, binary_path: "/usr/bin/emacs".to_string() });
    assert_eq!(t.process_db_id(&key), Some(1));
    assert_eq!(t.process_db_id(&restarted), Some(2));
    t.remember_process(key, ProcessInfo { db_id: 3, binary_path: "/usr/bin/emacs".to_string() });
    assert_eq!(t.process_db_id(&key), Some(3));
}

#[test]
fn deltas_against_last_commit() {
    let mut t = Tracker::new();
    let first = t.sample_deltas(1, 1000, &cpu(500, 100), &threads(10, 2, 3), &io(100, 200, 300), &energy(0, 0));
    assert_eq!(first.delta_user_ms, None);
    assert_eq!(first.interval_ms, None);
    assert_eq!(first.busy_ms, None);
    assert_eq!(first.delta_faults, None);
    assert_eq!(first.delta_logical_writes, None);
    assert_eq!(first.delta_cpu_energy_nj, None);
    t.commit_sample(1, 1000, &cpu(500, 100), &threads(10, 2, 3), &io(100, 200, 300), &energy(5_000, 40));
    let d = t.sample_deltas(1, 1600, &cpu(62_000, 1_100), &threads(25, 4, 3), &io(150, 260, 400), &energy(7_500, 46));
    assert_eq!(d.delta_user_ms, Some(61_500));
    assert_eq!(d.delta_system_ms, Some(1_000));
    assert_eq!(d.interval_ms, Some(600_000));
    assert_eq!(d.busy_ms, Some(62_500));
    let pct = d.busy_ms.unwrap() as f64 / d.interval_ms.unwrap() as f64 * 100.0;
    assert!((pct - 10.416666).abs() < 1e-3);
    assert_eq!(d.delta_faults, Some(15));
    assert_eq!(d.delta_cow, Some(2));
    assert_eq!(d.delta_pageins, Some(0));
    assert_eq!(d.delta_bytes_read, Some(50));
    assert_eq!(d.delta_bytes_written, Some(60));
    assert_eq!(d.delta_logical_writes, Some(100));
    assert_eq!(d.delta_cpu_energy_nj, Some(2_500));
    assert_eq!(d.delta_gpu_time_ms, Some(6));
    let other = t.sample_deltas(2, 1600, &cpu(1, 1), &threads(1, 1, 1), &io(1, 1, 1), &energy(0, 0));
    assert_eq!(other.delta_user_ms, None);
}

#[test]
fn no_busy_time_without_elapsed_time() {
    let mut t = Tracker::new();
    t.commit_sample(7, 50, &cpu(10, 10), &threads(0, 0, 0), &io(0, 0, 0), &energy(0, 0));
    let d = t.sample_deltas(7, 50, &cpu(20, 20), &threads(0, 0, 0), &io(0, 0, 0), &energy(0, 0));
    assert_eq!(d.interval_ms, Some(0));
    assert_eq!(d.busy_ms, None);
    assert_eq!(d.delta_user_ms, Some(10));
}

#[test]
fn overflow_is_detected() {
    let mut t = Tracker::new();
    assert!(!t.deltas_overflow(1, 0, &cpu(i64::MAX, 0), &threads(0, 0, 0), &io(0, 0, 0), &energy(0, 0)));
    t.commit_sample(1, 0, &cpu(i64::MIN, 0), &threads(0, 0, 0), &io(0, 0, 0), &energy(0, 0));
    assert!(t.deltas_overflow(1, 10, &cpu(1, 0), &threads(0, 0, 0), &io(0, 0, 0), &energy(0, 0)));
    assert!(!t.deltas_overflow(1, 10, &cpu(-5, 0), &threads(0, 0, 0), &io(0, 0, 0), &energy(0, 0)));
    t.commit_sample(2, i64::MIN, &cpu(0, 0), &threads(0, 0, 0), &io(0, 0, 0), &energy(0, 0));
    assert!(t.deltas_overflow(2, 0, &cpu(0, 0), &threads(0, 0, 0), &io(0, 0, 0), &energy(0, 0)));
    t.commit_sample(3, 0, &cpu(0, 0), &threads(0, 0, 0), &io(0, 0, 0), &energy(i64::MIN, 0));
    assert!(t.deltas_overflow(3, 0, &cpu(0, 0), &threads(0, 0, 0), &io(0, 0, 0), &energy(1, 0)));
}

#[test]
fn integrity_and_meta() {
    assert!(integrity_ok("ok"));
    assert!(!integrity_ok("*** in database main ***"));
    assert!(!integrity_ok("ok "));
    assert!(meta_row_exists(1));
    assert!(!meta_row_exists(0));
}

#[test]
fn emacs_probe_output() {
    assert_eq!(probe_output(true, b"GNU Emacs 29.4\n".to_vec()), Some("GNU Emacs 29.4".to_string()));
    assert_eq!(probe_output(false, b"GNU Emacs 29.4\n".to_vec()), None);
    assert_eq!(probe_output(true, b"  \n".to_vec()), None);
    assert_eq!(probe_output(true, vec![0xc3]), None);
}

#[test]
fn clock_reads_after_2020() {
    assert!(unix_now() > 1_577_836_800);
}

#[test]
fn context_switch_delta_against_last_commit() {
    let mut t = Tracker::new();
    let mut c0 = cpu(10, 10);
    c0.context_switches = 1_000;
    let first = t.sample_deltas(3, 100, &c0, &threads(0, 0, 0), &io(0, 0, 0), &energy(0, 0));
    assert_eq!(first.delta_csw, None);
    t.commit_sample(3, 100, &c0, &threads(0, 0, 0), &io(0, 0, 0), &energy(0, 0));
    let mut c1 = cpu(20, 20);
    c1.context_switches = 1_750;
    let d = t.sample_deltas(3, 700, &c1, &threads(0, 0, 0), &io(0, 0, 0), &energy(0, 0));
    assert_eq!(d.delta_csw, Some(750));
    let mut wild = cpu(20, 20);
    wild.context_switches = i64::MIN;
    assert!(t.deltas_overflow(3, 700, &wild, &threads(0, 0, 0), &io(0, 0, 0), &energy(0, 0)));
}
