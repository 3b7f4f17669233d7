//! The uploader's logic: which database to send, the checks it must pass,
//! its compression, the upload name and address, and the server's answer.
use vstd::prelude::*;
use crate::bz2::{bz2_compress, bz2_compressed, bz2_decompressed};
use crate::clock::millis_since_epoch;
use crate::random::random_bytes;
use crate::text::{hex_char, hyphenated, hyphenated_string, law_hyphenated_layout};

verus! {

/// Why an upload was refused or failed.
#[derive(Clone, Copy, Debug, PartialEq, Eq)]
pub enum UploadError {
    /// The file is shorter than the SQLite header.
    TooSmall,
    /// The file does not start with the SQLite header.
    NotSqlite,
    /// The file exceeds the size limit (sizes in whole MiB).
    TooLarge { size_mb: u64, limit_mb: u64 },
    /// Compression failed.
    Compress,
    /// The server answered with a status other than 200.
    Rejected { status: u16 },
}

/// The first 16 bytes of every SQLite 3 database: `"SQLite format 3\0"`.
pub const SQLITE_MAGIC: [u8; 16] = [
    0x53, 0x51, 0x4c, 0x69, 0x74, 0x65, 0x20, 0x66, 0x6f, 0x72, 0x6d, 0x61, 0x74, 0x20, 0x33, 0x00,
];

/// 50 MiB: the largest compressed database the uploader sends.
pub const MAX_SIZE_BYTES: u64 = 52428800;

/// The database uploaded when no path is given.
pub const DEFAULT_DB_PATH: &'static str = "emacs_reporter.db";

/// The database to upload: the first argument after the program name, or
/// `emacs_reporter.db`.
pub fn db_path_from_args(args: &Vec<String>) -> (r: String)
    ensures
        args.len() > 1 ==> r@ == args@[1]@,
        args.len() <= 1 ==> r@ == DEFAULT_DB_PATH@,
{
    if args.len() > 1 {
        args[1].clone()
    } else {
        String::from_str(DEFAULT_DB_PATH)
    }
}

/// The bytes of the SQLite header.
pub open spec fn sqlite_magic() -> Seq<u8> {
    seq![0x53u8, 0x51, 0x4c, 0x69, 0x74, 0x65, 0x20, 0x66, 0x6f, 0x72, 0x6d, 0x61, 0x74, 0x20, 0x33, 0x00]
}

/// Checks the start of a file, as far as it was read (at most its first 16
/// bytes matter): it must hold 16 bytes that are the SQLite header.
pub fn check_sqlite_header(head: &[u8]) -> (r: Result<(), UploadError>)
    ensures
        head@.len() < 16 ==> r == Err::<(), UploadError>(UploadError::TooSmall),
        head@.len() >= 16 && head@.take(16) == sqlite_magic() ==> r == Ok::<(), UploadError>(()),
        head@.len() >= 16 && head@.take(16) != sqlite_magic() ==> r == Err::<(), UploadError>(UploadError::NotSqlite),
{
    if head.len() < 16 {
        return Err(UploadError::TooSmall);
    }
    let magic = SQLITE_MAGIC;
    assert(magic@ =~= sqlite_magic());
    let mut i: usize = 0;
    while i < 16
        invariant
            16 <= head@.len(),
            magic@ == sqlite_magic(),
            i <= 16,
            forall|j: int| 0 <= j < i ==> head@[j] == sqlite_magic()[j],
        decreases 16 - i,
    {
        if head[i] != magic[i] {
            assert(head@.take(16)[i as int] != sqlite_magic()[i as int]);
            return Err(UploadError::NotSqlite);
        }
        i = i + 1;
    }
    assert(head@.take(16) =~= sqlite_magic());
    Ok(())
}

/// Checks a size in bytes against the 50 MiB upload limit.
pub fn check_size(size: u64) -> (r: Result<(), UploadError>)
    ensures
        size <= MAX_SIZE_BYTES ==> r == Ok::<(), UploadError>(()),
        size > MAX_SIZE_BYTES ==> r == Err::<(), UploadError>(UploadError::TooLarge {
            size_mb: size / 1024 / 1024,
            limit_mb: 50,
        }),
{
    if size > MAX_SIZE_BYTES {
        return Err(UploadError::TooLarge { size_mb: size / 1024 / 1024, limit_mb: MAX_SIZE_BYTES / 1024 / 1024 });
    }
    Ok(())
}

/// Compresses the database at the best bzip2 level; compressing in memory
/// always succeeds.
pub fn compress(data: &[u8]) -> (r: Result<Vec<u8>, UploadError>)
    ensures
        r matches Ok(c) && c@ == bz2_compressed(data@) && bz2_decompressed(c@) == Some(data@),
{
    match bz2_compress(data) {
        Ok(c) => Ok(c),
        Err(_) => Err(UploadError::Compress),
    }
}

/// What is uploaded for a database: its compressed bytes, provided they fit
/// the 50 MiB limit, which applies after compression.
pub fn compress_for_upload(data: &[u8]) -> (r: Result<Vec<u8>, UploadError>)
    ensures
        bz2_compressed(data@).len() <= MAX_SIZE_BYTES ==> (r matches Ok(c) && c@ == bz2_compressed(data@)),
        bz2_compressed(data@).len() > MAX_SIZE_BYTES ==> r == Err::<Vec<u8>, UploadError>(UploadError::TooLarge {
            size_mb: (bz2_compressed(data@).len() / 1024 / 1024) as u64,
            limit_mb: 50,
        }),
{
    let c = match compress(data) {
        Ok(c) => c,
        Err(e) => return Err(e),
    };
    match check_size(c.len() as u64) {
        Ok(()) => Ok(c),
        Err(e) => Err(e),
    }
}

/// `s` without its trailing `/` characters.
pub open spec fn trim_trailing_slashes(s: Seq<char>) -> Seq<char>
    decreases s.len(),
{
    if s.len() > 0 && s.last() == '/' { trim_trailing_slashes(s.drop_last()) } else { s }
}

/// The address a file is uploaded to: the base address without trailing
/// `/`, a `/`, and the file name.
pub open spec fn upload_address(base: Seq<char>, filename: Seq<char>) -> Seq<char> {
    trim_trailing_slashes(base) + seq!['/'] + filename
}

/// Builds the upload address.
pub fn upload_url(base: &str, filename: &str) -> (r: String)
    ensures
        r@ == upload_address(base@, filename@),
{
    let mut end = base.unicode_len();
    assert(base@.take(end as int) =~= base@);
    while end > 0 && base.get_char(end - 1) == '/'
        invariant
            end <= base@.len(),
            trim_trailing_slashes(base@) == trim_trailing_slashes(base@.take(end as int)),
        decreases end,
    {
        assert(base@.take(end as int).drop_last() =~= base@.take(end - 1));
        end = end - 1;
    }
    let mut s = String::from_str(base.substring_char(0, end));
    proof { reveal_strlit("/"); }
    s.append("/");
    s.append(filename);
    s
}

/// The server accepted the upload only when it answered 200.
pub fn check_upload_status(status: u16) -> (r: Result<(), UploadError>)
    ensures
        status == 200 ==> r == Ok::<(), UploadError>(()),
        status != 200 ==> r == Err::<(), UploadError>(UploadError::Rejected { status }),
{
    if status != 200 {
        return Err(UploadError::Rejected { status });
    }
    Ok(())
}

/// The name a database is uploaded under: `<id>.db.bz2`.
pub fn upload_file_name(id: &str) -> (r: String)
    ensures
        r@ == id@ + ".db.bz2"@,
{
    let mut s = String::from_str(id);
    s.append(".db.bz2");
    s
}

// ── UUIDv7 ───────────────────────────────────────────────────────────────────

/// The 16 bytes of the UUIDv7 built from a millisecond timestamp and 10
/// random bytes: the low 48 bits of the timestamp, big-endian; the version
/// nibble 7 over the low nibble of `r[0]`; `r[1]`; the variant bits `10`
/// over the low six bits of `r[2]`; then `r[3]` to `r[9]`.
pub open spec fn uuidv7_bytes(ms: u64, r: Seq<u8>) -> Seq<u8> {
    let hi = (ms >> 16u64) as u32;
    let lo = (ms & 0xffffu64) as u16;
    seq![
        (hi >> 24u32) as u8,
        (hi >> 16u32) as u8,
        (hi >> 8u32) as u8,
        hi as u8,
        (lo >> 8u16) as u8,
        lo as u8,
        0x70u8 | (r[0] & 0x0fu8),
        r[1],
        0x80u8 | (r[2] & 0x3fu8),
        r[3],
        r[4],
        r[5],
        r[6],
        r[7],
        r[8],
        r[9],
    ]
}

/// Formats a UUIDv7 from a millisecond timestamp and 10 random bytes.
pub fn format_uuidv7(now_ms: u64, rng: &[u8; 10]) -> (r: String)
    ensures
        r@ == hyphenated(uuidv7_bytes(now_ms, rng@)),
{
    let hi = (now_ms >> 16u64) as u32;
    let lo = (now_ms & 0xffffu64) as u16;
    let bytes: [u8; 16] = [
        (hi >> 24u32) as u8,
        (hi >> 16u32) as u8,
        (hi >> 8u32) as u8,
        hi as u8,
        (lo >> 8u16) as u8,
        lo as u8,
        0x70u8 | (rng[0] & 0x0fu8),
        rng[1],
        0x80u8 | (rng[2] & 0x3fu8),
        rng[3],
        rng[4],
        rng[5],
        rng[6],
        rng[7],
        rng[8],
        rng[9],
    ];
    assert(bytes@ =~= uuidv7_bytes(now_ms, rng@));
    hyphenated_string(&bytes)
}

/// The UUIDv7 for a millisecond timestamp and the outcome of asking the
/// system for 10 random bytes: formatted from those bytes when it gave them,
/// none when it failed.
pub fn uuidv7_from_random(now_ms: u64, random: Result<[u8; 10], getrandom::Error>) -> (r: Option<String>)
    ensures
        match random {
            Ok(rng) => r matches Some(s) && s@ == hyphenated(uuidv7_bytes(now_ms, rng@)),
            Err(_) => r is None,
        },
{
    match random {
        Ok(rng) => Some(format_uuidv7(now_ms, &rng)),
        Err(_) => None,
    }
}

/// A fresh UUIDv7 from the current time in milliseconds (truncated to 64
/// bits) and 10 random bytes; none when the system has no randomness.
pub fn new_uuidv7() -> (r: Option<String>)
    ensures
        r matches Some(s) ==> exists|ms: u64, rng: Seq<u8>| rng.len() == 10 && s@ == hyphenated(uuidv7_bytes(ms, rng)),
        r matches Some(s) ==> s@.len() == 36 && s@[14] == '7',
{
    let now_ms = millis_since_epoch() as u64;
    let random = match random_bytes(10) {
        Ok(v) => Ok([v[0], v[1], v[2], v[3], v[4], v[5], v[6], v[7], v[8], v[9]]),
        Err(e) => Err(e),
    };
    proof {
        if let Ok(rng) = random {
            law_uuidv7_layout(now_ms, rng@);
            law_hyphenated_layout(uuidv7_bytes(now_ms, rng@));
            assert(hex_char(7) == '7');
        }
    }
    uuidv7_from_random(now_ms, random)
}

/// Every UUIDv7 this library makes carries version 7, the RFC 4122 variant,
/// and the low 48 bits of its millisecond timestamp, big-endian, in its
/// first six bytes.
pub proof fn law_uuidv7_layout(ms: u64, r: Seq<u8>)
    requires
        r.len() == 10,
    ensures
        uuidv7_bytes(ms, r).len() == 16,
        uuidv7_bytes(ms, r)[6] / 16 == 7,
        uuidv7_bytes(ms, r)[8] / 64 == 2,
        ({
            let b = uuidv7_bytes(ms, r);
            b[0] as int * 0x100_0000_0000 + b[1] as int * 0x1_0000_0000 + b[2] as int * 0x100_0000
                + b[3] as int * 0x1_0000 + b[4] as int * 0x100 + b[5] as int == ms as int % 0x1_0000_0000_0000
        }),
{
    let b = uuidv7_bytes(ms, r);
    let r0 = r[0];
    let r2 = r[2];
    assert((0x70u8 | (r0 & 0x0fu8)) / 16 == 7) by (bit_vector);
    assert((0x80u8 | (r2 & 0x3fu8)) / 64 == 2) by (bit_vector);
    let hi = (ms >> 16u64) as u32;
    let lo = (ms & 0xffffu64) as u16;
    assert(((hi >> 24u32) as u8) as u64 * 0x100_0000_0000 + ((hi >> 16u32) as u8) as u64 * 0x1_0000_0000
        + ((hi >> 8u32) as u8) as u64 * 0x100_0000 + (hi as u8) as u64 * 0x1_0000
        + ((lo >> 8u16) as u8) as u64 * 0x100 + (lo as u8) as u64 == ms % 0x1_0000_0000_0000) by (bit_vector)
        requires
            hi == (ms >> 16u64) as u32,
            lo == (ms & 0xffffu64) as u16,
    ;
}

} // verus!
