//! Ed25519 signatures, as the `ed25519-dalek` crate provides them.

use ed25519_dalek::{Signature, Signer, SigningKey, Verifier, VerifyingKey};
use vstd::prelude::*;

verus! {

/// Whether `signature` is an Ed25519 signature of `message` that verifies under the encoded
/// public key `public_key`; false where the key does not decode to a curve point.
pub uninterp spec fn ed25519_verifies(
    public_key: Seq<u8>,
    message: Seq<u8>,
    signature: Seq<u8>,
) -> bool;

/// The Ed25519 verifying key that belongs to the 32-byte secret key `secret_key`.
pub uninterp spec fn ed25519_public_key(secret_key: Seq<u8>) -> Seq<u8>;

/// The Ed25519 signature of `message` under the 32-byte secret key `secret_key`.
pub uninterp spec fn ed25519_signature(secret_key: Seq<u8>, message: Seq<u8>) -> Seq<u8>;

/// Calls `VerifyingKey::from_bytes` and `Verifier::verify`.
///
/// Trusted: the answer is the named one, a function of the three byte strings alone.
#[verifier::external_body]
pub(crate) fn verify(public_key: &[u8; 32], message: &[u8], signature: &[u8; 64]) -> (ok: bool)
    ensures
        ok == ed25519_verifies(public_key@, message@, signature@),
{
    match VerifyingKey::from_bytes(public_key) {
        Ok(key) => key.verify(message, &Signature::from_bytes(signature)).is_ok(),
        Err(_) => false,
    }
}

/// Calls `SigningKey::verifying_key`.
///
/// Trusted: the key that comes back is the named one.
#[verifier::external_body]
pub(crate) fn public_key(secret_key: &[u8; 32]) -> (key: [u8; 32])
    ensures
        key@ == ed25519_public_key(secret_key@),
{
    SigningKey::from_bytes(secret_key).verifying_key().to_bytes()
}

/// Calls `Signer::sign`, which for this key type never fails.
///
/// Trusted: the signature that comes back is the named one, Ed25519 signing drawing no
/// randomness; and it verifies over the message under the verifying key that belongs to the
/// secret key.
#[verifier::external_body]
pub(crate) fn sign(secret_key: &[u8; 32], message: &[u8]) -> (signature: [u8; 64])
    ensures
        signature@ == ed25519_signature(secret_key@, message@),
        ed25519_verifies(ed25519_public_key(secret_key@), message@, signature@),
{
    SigningKey::from_bytes(secret_key).sign(message).to_bytes()
}

} // verus!
