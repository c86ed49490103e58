//! Random bytes from the thread-local generator of the `rand` crate.

use rand::RngCore;
use vstd::prelude::*;

verus! {

/// Calls `RngCore::fill_bytes` on `rand::thread_rng()`.
///
/// Trusted: `len` bytes come back. Nothing is promised of what they hold.
#[verifier::external_body]
pub(crate) fn random_bytes(len: usize) -> (bytes: Vec<u8>)
    ensures
        bytes@.len() == len,
{
    let mut bytes = vec![0u8; len];
    rand::thread_rng().fill_bytes(&mut bytes);
    bytes
}

} // verus!
