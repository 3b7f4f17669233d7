//! bzip2 compression of whole byte buffers.
use std::io::{Read, Write};
use vstd::prelude::*;

verus! {

/// `std::io::Error`, carried opaquely.
#[verifier::external_type_specification]
#[verifier::external_body]
pub struct ExIoError(std::io::Error);

/// What bzip2 compression at the best level makes of `data`.
pub uninterp spec fn bz2_compressed(data: Seq<u8>) -> Seq<u8>;

/// What bzip2 decompression of the first stream of `data` gives; none when
/// `data` is not a valid bzip2 stream.
pub uninterp spec fn bz2_decompressed(data: Seq<u8>) -> Option<Seq<u8>>;

/// Compresses `data` with bzip2's `write::BzEncoder` at
/// `Compression::best()` and `finish`es the stream. The encoder's `write`
/// and `finish` fail only when the inner writer fails, and writing into a
/// `Vec<u8>` never fails, so the result is always `Ok`. The crate documents
/// compression as lossless: decompressing the result gives `data` back.
#[verifier::external_body]
pub(crate) fn bz2_compress(data: &[u8]) -> (r: Result<Vec<u8>, std::io::Error>)
    ensures
        r is Ok,
        r matches Ok(c) ==> c@ == bz2_compressed(data@) && bz2_decompressed(c@) == Some(data@),
{
    let mut encoder = bzip2::write::BzEncoder::new(Vec::new(), bzip2::Compression::best());
    encoder.write_all(data)?;
    encoder.finish()
}

/// Decompresses `data` with bzip2's `read::BzDecoder` (`read_to_end`).
/// Reading from memory fails only on data that is not bzip2.
#[verifier::external_body]
pub(crate) fn bz2_decompress(data: &[u8]) -> (r: Result<Vec<u8>, std::io::Error>)
    ensures
        r is Ok <==> bz2_decompressed(data@) is Some,
        r matches Ok(d) ==> bz2_decompressed(data@) == Some(d@),
{
    let mut decoder = bzip2::read::BzDecoder::new(data);
    let mut out = Vec::new();
    decoder.read_to_end(&mut out)?;
    Ok(out)
}

} // verus!
