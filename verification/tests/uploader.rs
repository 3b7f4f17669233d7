use emacs_reporter::uploader::{
    check_size, check_sqlite_header, check_upload_status, compress, compress_for_upload, db_path_from_args, format_uuidv7,
    new_uuidv7, upload_file_name, upload_url, uuidv7_from_random, UploadError, MAX_SIZE_BYTES,
};

#[test]
fn sqlite_header_check() {
    let mut good = b"SQLite format 3\0".to_vec();
    good.extend_from_slice(&[1, 2, 3]);
    assert_eq!(check_sqlite_header(&good), Ok(()));
    assert_eq!(check_sqlite_header(b"SQLite format 3\0"), Ok(()));
    assert_eq!(check_sqlite_header(b"SQLite"), Err(UploadError::TooSmall));
    assert_eq!(check_sqlite_header(b""), Err(UploadError::TooSmall));
    assert_eq!(check_sqlite_header(b"SQLite format 4\0"), Err(UploadError::NotSqlite));
}

#[test]
fn size_limit() {
    assert_eq!(MAX_SIZE_BYTES, 50 * 1024 * 1024);
    assert_eq!(check_size(0), Ok(()));
    assert_eq!(check_size(MAX_SIZE_BYTES), Ok(()));
    assert_eq!(check_size(MAX_SIZE_BYTES + 1), Err(UploadError::TooLarge { size_mb: 50, limit_mb: 50 }));
    assert_eq!(check_size(200 * 1024 * 1024 + 5), Err(UploadError::TooLarge { size_mb: 200, limit_mb: 50 }));
}

#[test]
fn upload_addresses() {
    assert_eq!(upload_url("http://localhost:9999", "x.db.bz2"), "http://localhost:9999/x.db.bz2");
    assert_eq!(upload_url("https://h/up///", "x.db.bz2"), "https://h/up/x.db.bz2");
    assert_eq!(upload_file_name("0190-abc"), "0190-abc.db.bz2");
    assert_eq!(check_upload_status(200), Ok(()));
    assert_eq!(check_upload_status(429), Err(UploadError::Rejected { status: 429 }));
}

#[test]
fn uuidv7_layout() {
    assert_eq!(format_uuidv7(0x0123_4567_89ab, &[0xff; 10]), "01234567-89ab-7fff-bfff-ffffffffffff");
    assert_eq!(format_uuidv7(0xdead_0123_4567_89ab, &[0; 10]), "01234567-89ab-7000-8000-000000000000");
    assert_eq!(
        format_uuidv7(1, &[0x12, 0x34, 0x56, 0x78, 0x9a, 0xbc, 0xde, 0xf0, 0x11, 0x22]),
        "00000000-0001-7234-9678-9abcdef01122"
    );
    let id = new_uuidv7().unwrap();
    assert_eq!(id.len(), 36);
    assert_eq!(id.as_bytes()[14], b'7');
    assert!(uuid::Uuid::parse_str(&id).is_ok());
}

#[test]
fn database_path_argument() {
    assert_eq!(db_path_from_args(&vec!["uploader".to_string()]), "emacs_reporter.db");
    assert_eq!(db_path_from_args(&vec!["uploader".to_string(), "/tmp/x.db".to_string()]), "/tmp/x.db");
}

#[test]
fn compression_shrinks_repetitive_data() {
    let data = vec![b'a'; 100_000];
    let c = compress(&data).unwrap();
    assert!(c.len() < 1000);
}

#[test]
fn uuidv7_from_random_outcome() {
    assert_eq!(
        uuidv7_from_random(0x0123_4567_89ab, Ok([0xff; 10])),
        Some("01234567-89ab-7fff-bfff-ffffffffffff".to_string())
    );
    assert_eq!(uuidv7_from_random(1, Err(getrandom::Error::UNSUPPORTED)), None);
}

#[test]
fn compression_always_succeeds_and_round_trips() {
    for data in [Vec::new(), b"SQLite format 3\0".to_vec(), (0..=255u8).cycle().take(70_000).collect::<Vec<u8>>()] {
        let c = compress(&data).unwrap();
        let mut back = Vec::new();
        std::io::Read::read_to_end(&mut bzip2::read::BzDecoder::new(&c[..]), &mut back).unwrap();
        assert_eq!(back, data);
    }
}

#[test]
fn size_limit_applies_to_compressed_bytes() {
    let data = vec![0u8; 51 * 1024 * 1024];
    assert!(data.len() as u64 > MAX_SIZE_BYTES);
    let c = compress_for_upload(&data).unwrap();
    assert_eq!(c, compress(&data).unwrap());
    assert!((c.len() as u64) < MAX_SIZE_BYTES);
    assert_eq!(
        check_size(MAX_SIZE_BYTES + 3 * 1024 * 1024),
        Err(UploadError::TooLarge { size_mb: 53, limit_mb: 50 })
    );
}
