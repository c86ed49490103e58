//! ML-KEM-768 key encapsulation, as the `pqcrypto-mlkem` crate provides it.

use pqcrypto_mlkem::mlkem768;
use pqcrypto_traits::kem::{Ciphertext, PublicKey, SecretKey, SharedSecret};
use vstd::prelude::*;

verus! {

/// Length in bytes of an ML-KEM-768 public key.
pub const KEM_PUBLIC_KEY_SIZE: usize = 1184;

/// Length in bytes of an ML-KEM-768 secret key.
pub const KEM_SECRET_KEY_SIZE: usize = 2400;

/// Length in bytes of an ML-KEM-768 ciphertext.
pub const KEM_CIPHERTEXT_SIZE: usize = 1088;

/// Length in bytes of the shared secret.
pub const KEM_SHARED_SECRET_SIZE: usize = 32;

/// The shared secret that ML-KEM-768 decapsulation yields for a ciphertext of 1088 bytes and
/// a secret key of 2400 bytes.
pub uninterp spec fn mlkem768_decapsulated(ciphertext: Seq<u8>, secret_key: Seq<u8>) -> Seq<u8>;

/// The shared secret and the ciphertext that ML-KEM-768 encapsulation to a public key of
/// 1184 bytes makes of 32 drawn bytes.
pub uninterp spec fn mlkem768_encapsulated(public_key: Seq<u8>, coins: Seq<u8>) -> (
    Seq<u8>,
    Seq<u8>,
);

/// The public key and the secret key that ML-KEM-768 key generation makes of the 64 bytes
/// that it draws.
pub uninterp spec fn mlkem768_key_pair(coins: Seq<u8>) -> (Seq<u8>, Seq<u8>);

/// Whether a public key and a secret key are a pair that key generation makes of some bytes.
pub open spec fn is_key_pair(public_key: Seq<u8>, secret_key: Seq<u8>) -> bool {
    exists|coins: Seq<u8>| (public_key, secret_key) == #[trigger] mlkem768_key_pair(coins)
}

/// Calls `mlkem768::keypair`, which draws 64 bytes and generates a key pair from them.
///
/// Trusted: the public key of 1184 bytes and the secret key of 2400 are the named pair for
/// the bytes drawn.
#[verifier::external_body]
pub(crate) fn keypair() -> (keys: (Vec<u8>, Vec<u8>))
    ensures
        keys.0@.len() == KEM_PUBLIC_KEY_SIZE,
        keys.1@.len() == KEM_SECRET_KEY_SIZE,
        exists|coins: Seq<u8>| (keys.0@, keys.1@) == #[trigger] mlkem768_key_pair(coins),
{
    let (pk, sk) = mlkem768::keypair();
    (pk.as_bytes().to_vec(), sk.as_bytes().to_vec())
}

/// Calls `mlkem768::encapsulate`, which draws 32 bytes and encapsulates with them.
///
/// Trusted: the call is made exactly where the public key has 1184 bytes; the shared secret
/// of 32 bytes and the ciphertext of 1088 are the named ones for that key and some 32 bytes.
#[verifier::external_body]
pub(crate) fn encapsulate(public_key: &[u8]) -> (res: Option<([u8; 32], Vec<u8>)>)
    ensures
        res is Some <==> public_key@.len() == KEM_PUBLIC_KEY_SIZE,
        res matches Some(pair) ==> pair.1@.len() == KEM_CIPHERTEXT_SIZE,
        res matches Some(pair) ==> exists|coins: Seq<u8>|
            coins.len() == 32 && (pair.0@, pair.1@) == #[trigger] mlkem768_encapsulated(
                public_key@,
                coins,
            ),
{
    let pk = mlkem768::PublicKey::from_bytes(public_key).ok()?;
    let (ss, ct) = mlkem768::encapsulate(&pk);
    let secret: [u8; 32] = ss.as_bytes().try_into().ok()?;
    Some((secret, ct.as_bytes().to_vec()))
}

/// Calls `mlkem768::decapsulate`.
///
/// Trusted: the call is made exactly where the ciphertext has 1088 bytes and the secret key
/// 2400, and then returns the named 32-byte secret.
#[verifier::external_body]
pub(crate) fn decapsulate(ciphertext: &[u8], secret_key: &[u8]) -> (res: Option<[u8; 32]>)
    ensures
        res is Some <==> (ciphertext@.len() == KEM_CIPHERTEXT_SIZE && secret_key@.len()
            == KEM_SECRET_KEY_SIZE),
        res matches Some(secret) ==> secret@ == mlkem768_decapsulated(ciphertext@, secret_key@),
{
    let ct = mlkem768::Ciphertext::from_bytes(ciphertext).ok()?;
    let sk = mlkem768::SecretKey::from_bytes(secret_key).ok()?;
    mlkem768::decapsulate(&ct, &sk).as_bytes().try_into().ok()
}

} // verus!
