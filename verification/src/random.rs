//! Random bytes from the operating system.
use vstd::prelude::*;

verus! {

/// `getrandom::Error`, carried opaquely.
#[verifier::external_type_specification]
#[verifier::external_body]
pub struct ExRandomError(getrandom::Error);

/// Calls `getrandom::fill` on a buffer of `n` zero bytes: the buffer, filled
/// by the operating system's random source, or that source's error. `fill`
/// writes into the buffer it is given and never resizes it, so the bytes
/// number `n`; nothing is promised of their values.
#[verifier::external_body]
pub(crate) fn random_bytes(n: usize) -> (r: Result<Vec<u8>, getrandom::Error>)
    ensures
        r matches Ok(v) ==> v@.len() == n,
{
    let mut bytes = vec![0u8; n];
    getrandom::fill(&mut bytes)?;
    Ok(bytes)
}

} // verus!
