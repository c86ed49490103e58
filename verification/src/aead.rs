//! ChaCha20-Poly1305 authenticated encryption, as the `chacha20poly1305` crate provides it.

use chacha20poly1305::aead::{Aead, KeyInit, Payload};
use chacha20poly1305::{ChaCha20Poly1305, Nonce};
use vstd::prelude::*;

verus! {

/// Length in bytes of the authentication tag that follows the ciphertext.
pub const TAG_SIZE: usize = 16;

/// What ChaCha20-Poly1305 encryption returns for a 32-byte key, a 12-byte nonce, associated
/// data and a plaintext: the ciphertext followed by the 16-byte tag.
pub uninterp spec fn chacha20poly1305_seal(
    key: Seq<u8>,
    nonce: Seq<u8>,
    aad: Seq<u8>,
    plaintext: Seq<u8>,
) -> Seq<u8>;

/// What ChaCha20-Poly1305 decryption returns for a key, a nonce, associated data and a sealed
/// message: the plaintext, or nothing where authentication fails.
pub uninterp spec fn chacha20poly1305_open(
    key: Seq<u8>,
    nonce: Seq<u8>,
    aad: Seq<u8>,
    sealed: Seq<u8>,
) -> Option<Seq<u8>>;

/// Calls `ChaCha20Poly1305::encrypt`.
///
/// Trusted: the call fails only where the plaintext spans 2^32 - 1 or more 64-byte blocks;
/// otherwise it returns the named result, which is 16 bytes longer than the plaintext.
#[verifier::external_body]
pub(crate) fn seal(key: &[u8; 32], nonce: &[u8; 12], aad: &[u8], plaintext: &[u8]) -> (res: Option<
    Vec<u8>,
>)
    ensures
        plaintext@.len() / 64 < u32::MAX ==> res is Some,
        res matches Some(sealed) ==> sealed@ == chacha20poly1305_seal(
            key@,
            nonce@,
            aad@,
            plaintext@,
        ) && sealed@.len() == plaintext@.len() + 16,
{
    let cipher = ChaCha20Poly1305::new(key.into());
    cipher.encrypt(Nonce::from_slice(nonce), Payload { msg: plaintext, aad }).ok()
}

/// Calls `ChaCha20Poly1305::decrypt`.
///
/// Trusted: the call returns the named result; a plaintext is 16 bytes shorter than the sealed
/// message; and a message sealed under the same key, nonce and associated data opens to the
/// plaintext it was sealed from.
#[verifier::external_body]
pub(crate) fn open(key: &[u8; 32], nonce: &[u8; 12], aad: &[u8], sealed: &[u8]) -> (res: Option<
    Vec<u8>,
>)
    ensures
        match res {
            Some(plaintext) => chacha20poly1305_open(key@, nonce@, aad@, sealed@) == Some(
                plaintext@,
            ),
            None => chacha20poly1305_open(key@, nonce@, aad@, sealed@) is None,
        },
        res matches Some(plaintext) ==> sealed@.len() >= 16 && plaintext@.len() == sealed@.len()
            - 16,
        forall|m: Seq<u8>|
            m.len() / 64 < u32::MAX && #[trigger] chacha20poly1305_seal(key@, nonce@, aad@, m)
                == sealed@ ==> res is Some && res.unwrap()@ == m,
{
    let cipher = ChaCha20Poly1305::new(key.into());
    cipher.decrypt(Nonce::from_slice(nonce), Payload { msg: sealed, aad }).ok()
}

} // verus!
