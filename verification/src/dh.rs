//! X25519 Diffie-Hellman, as the `x25519-dalek` crate provides it.

use vstd::prelude::*;
use x25519_dalek::{PublicKey, StaticSecret};

verus! {

/// The X25519 shared secret of a 32-byte secret key and a peer's 32-byte public key.
pub uninterp spec fn x25519_shared_secret(secret_key: Seq<u8>, their_public: Seq<u8>) -> Seq<u8>;

/// The X25519 public key that belongs to a 32-byte secret key.
pub uninterp spec fn x25519_public_key(secret_key: Seq<u8>) -> Seq<u8>;

/// Calls `StaticSecret::diffie_hellman`.
///
/// Trusted: the 32 bytes that come back are the named shared secret.
#[verifier::external_body]
pub(crate) fn diffie_hellman(secret_key: &[u8; 32], their_public: &[u8; 32]) -> (shared: [u8; 32])
    ensures
        shared@ == x25519_shared_secret(secret_key@, their_public@),
{
    StaticSecret::from(*secret_key).diffie_hellman(&PublicKey::from(*their_public)).to_bytes()
}

/// Calls `PublicKey::from` on a static secret.
///
/// Trusted: the 32 bytes that come back are the named public key.
#[verifier::external_body]
pub(crate) fn public_key(secret_key: &[u8; 32]) -> (key: [u8; 32])
    ensures
        key@ == x25519_public_key(secret_key@),
{
    PublicKey::from(&StaticSecret::from(*secret_key)).to_bytes()
}

} // verus!
