//! BLAKE3 and SHA-256, as the `blake3` and `sha2` crates provide them.

use sha2::{Digest, Sha256};
use vstd::prelude::*;

verus! {

/// The 32-byte BLAKE3 hash of `data`.
pub uninterp spec fn blake3_hash(data: Seq<u8>) -> Seq<u8>;

/// The 32-byte SHA-256 digest of `data`.
pub uninterp spec fn sha256_hash(data: Seq<u8>) -> Seq<u8>;

/// Calls `blake3::hash`.
///
/// Trusted: the 32 bytes that come back are the named hash.
#[verifier::external_body]
pub(crate) fn blake3(data: &[u8]) -> (digest: [u8; 32])
    ensures
        digest@ == blake3_hash(data@),
{
    *blake3::hash(data).as_bytes()
}

/// A running SHA-256 computation. The hasher's own type is generic over traits of its crate
/// and cannot be declared, so it is held here, out of the verifier's sight.
#[verifier::external_body]
pub struct Sha256State {
    inner: Sha256,
}

/// The bytes that a running SHA-256 computation has taken in so far, in order.
pub uninterp spec fn sha256_absorbed(state: Sha256State) -> Seq<u8>;

/// Calls `Digest::new`.
///
/// Trusted: a fresh computation has taken in nothing.
#[verifier::external_body]
pub(crate) fn sha256_start() -> (state: Sha256State)
    ensures
        sha256_absorbed(state) == Seq::<u8>::empty(),
{
    Sha256State { inner: Sha256::new() }
}

/// Calls `Digest::update`.
///
/// Trusted: the computation has taken in `data` after what it had.
#[verifier::external_body]
pub(crate) fn sha256_update(state: &mut Sha256State, data: &[u8])
    ensures
        sha256_absorbed(*final(state)) == sha256_absorbed(*old(state)) + data@,
{
    state.inner.update(data);
}

/// Calls `Digest::finalize`.
///
/// Trusted: the 32 bytes that come back are the SHA-256 digest of all that was taken in.
#[verifier::external_body]
pub(crate) fn sha256_finish(state: Sha256State) -> (digest: [u8; 32])
    ensures
        digest@ == sha256_hash(sha256_absorbed(state)),
{
    state.inner.finalize().into()
}

} // verus!
