use emacs_reporter::merge::{
    bz2_files, decompress, error_copy_name, has_bz2_extension, insert_sql, plan_output_path, plan_table,
    select_sql, table_info_sql, timestamp, MergeError, OutputPlan, TableAction,
};
use emacs_reporter::uploader::compress;

#[test]
fn compressed_reports_decompress_to_the_same_bytes() {
    let data: Vec<u8> = (0..5000u32).map(|i| (i * 7 % 251) as u8).collect();
    let packed = compress(&data).unwrap();
    assert_ne!(packed, data);
    assert_eq!(&packed[..3], b"BZh");
    assert_eq!(decompress(&packed), Ok(data));
    assert_eq!(decompress(b"not bzip2 at all"), Err(MergeError::Decompress));
}

#[test]
fn sql_statements() {
    let cols = vec!["sample_id".to_string(), "user_ms".to_string(), "system_ms".to_string()];
    assert_eq!(select_sql("cpu", &cols), "SELECT sample_id, user_ms, system_ms FROM \"cpu\"");
    assert_eq!(
        insert_sql("cpu", &cols),
        "INSERT OR IGNORE INTO \"cpu\" (sample_id, user_ms, system_ms) VALUES (:sample_id, :user_ms, :system_ms)"
    );
    assert_eq!(table_info_sql("cpu"), "PRAGMA table_info(\"cpu\")");
    let one = vec!["id".to_string()];
    assert_eq!(insert_sql("meta", &one), "INSERT OR IGNORE INTO \"meta\" (id) VALUES (:id)");
}

#[test]
fn table_plans() {
    let cols = vec!["a".to_string()];
    assert!(matches!(plan_table("t", 0, &cols), TableAction::SkipUnknown));
    assert!(matches!(plan_table("t", 1, &vec![]), TableAction::SkipNoColumns));
    match plan_table("t", 1, &cols) {
        TableAction::Copy { select_sql, insert_sql } => {
            assert_eq!(select_sql, "SELECT a FROM \"t\"");
            assert_eq!(insert_sql, "INSERT OR IGNORE INTO \"t\" (a) VALUES (:a)");
        }
        _ => panic!("expected a copy"),
    }
}

#[test]
fn output_path_priority() {
    let files = vec!["in/a.db.bz2".to_string(), "in/b.db.bz2".to_string()];
    match plan_output_path(true, true, &files).unwrap() {
        OutputPlan::UseExisting { path } => assert_eq!(path, "all_reports.db"),
        _ => panic!(),
    }
    match plan_output_path(false, true, &files).unwrap() {
        OutputPlan::UseExisting { path } => assert_eq!(path, "emacs_reporter.db"),
        _ => panic!(),
    }
    match plan_output_path(false, false, &files).unwrap() {
        OutputPlan::SeedFrom { source, target } => {
            assert_eq!(source, "in/a.db.bz2");
            assert_eq!(target, "all_reports.db");
        }
        _ => panic!(),
    }
    assert!(matches!(plan_output_path(false, false, &vec![]), Err(MergeError::NoBz2Files)));
}

#[test]
fn bz2_file_selection() {
    assert!(has_bz2_extension("dir/x.db.bz2"));
    assert!(has_bz2_extension("x.bz2"));
    assert!(!has_bz2_extension(".bz2"));
    assert!(!has_bz2_extension("x.bz2.tmp.db"));
    assert!(!has_bz2_extension("error.log"));
    let listing = vec!["d/error.log".to_string(), "d/u1.db.bz2".to_string(), "d/u2.db.bz2".to_string(), "d/u1.db.tmp.db".to_string()];
    assert_eq!(bz2_files(&listing), vec!["d/u1.db.bz2".to_string(), "d/u2.db.bz2".to_string()]);
}

#[test]
fn error_names_and_timestamps() {
    assert_eq!(error_copy_name("u1.db.bz2"), "error_u1.db.bz2");
    let ts = timestamp();
    assert!(ts.chars().all(|c| c.is_ascii_digit()));
    assert!(ts.parse::<u64>().unwrap() > 1_577_836_800);
}
