//! Anonymous device identifiers: the first six bytes of the BLAKE3 hash of a public key.

use crate::hash::blake3_hash;
use crate::util::concat3;
use crate::wipe::{zeroize_array, zeros};
use vstd::prelude::*;

verus! {

/// The Base58 encoding of `bytes` in the Bitcoin alphabet.
pub uninterp spec fn base58_encoded(bytes: Seq<u8>) -> Seq<char>;

/// Calls `bs58::encode` and collects the encoding in a string.
///
/// Trusted: the string that comes back is the named encoding.
#[verifier::external_body]
fn base58(bytes: &[u8]) -> (text: String)
    ensures
        text@ == base58_encoded(bytes@),
{
    bs58::encode(bytes).into_string()
}

/// The four bytes of a 32-bit integer, least significant first.
pub open spec fn u32_le_bytes(x: u32) -> Seq<u8> {
    seq![(x & 0xff) as u8, ((x >> 8) & 0xff) as u8, ((x >> 16) & 0xff) as u8, ((x >> 24) & 0xff) as u8]
}

/// What proves that a key was retired at a time: the BLAKE3 hash of the key followed by the
/// time in seconds, in four bytes, least significant first.
pub open spec fn keyburn_input(old_pk: Seq<u8>, ts: u32) -> Seq<u8> {
    old_pk + u32_le_bytes(ts)
}

/// Computes the hash that proves that the key `old_pk` was retired at `ts` seconds.
pub fn keyburn_digest(old_pk: &[u8], ts: u32) -> (digest: [u8; 32])
    ensures
        digest@ == blake3_hash(keyburn_input(old_pk@, ts)),
{
    let b0: u32 = ts & 0xff;
    let b1: u32 = (ts >> 8) & 0xff;
    let b2: u32 = (ts >> 16) & 0xff;
    let b3: u32 = (ts >> 24) & 0xff;
    assert(b0 < 256 && b1 < 256 && b2 < 256 && b3 < 256) by (bit_vector)
        requires
            b0 == ts & 0xff,
            b1 == (ts >> 8) & 0xff,
            b2 == (ts >> 16) & 0xff,
            b3 == (ts >> 24) & 0xff,
    ;
    let le = [b0 as u8, b1 as u8, b2 as u8, b3 as u8];
    let empty: [u8; 0] = [];
    let input = concat3(old_pk, le.as_slice(), empty.as_slice());
    assert(input@ =~= keyburn_input(old_pk@, ts));
    crate::hash::blake3(input.as_slice())
}

/// An identifier that names a device without giving away its key.
#[derive(Debug, Clone, PartialEq, Eq)]
pub struct AnonId(pub [u8; 6]);

impl AnonId {
    /// The identifier of the device with public key `pk`.
    pub fn from_pk(pk: &[u8]) -> (id: Self)
        ensures
            id.0@ == blake3_hash(pk@).subrange(0, 6),
    {
        let hash = crate::hash::blake3(pk);
        let id = [hash[0], hash[1], hash[2], hash[3], hash[4], hash[5]];
        assert(id@ =~= blake3_hash(pk@).subrange(0, 6));
        Self(id)
    }

    /// The identifier in Base58, as it is displayed.
    pub fn to_base58(&self) -> (text: String)
        ensures
            text@ == base58_encoded(self.0@),
    {
        base58(self.0.as_slice())
    }

    /// Overwrites the identifier with zeros.
    pub fn zeroize(&mut self)
        ensures
            final(self).0@ == zeros(6),
    {
        zeroize_array(&mut self.0);
    }
}

impl Drop for AnonId {
    /// Wipes the identifier when it goes out of use.
    fn drop(&mut self)
        opens_invariants none
        no_unwind
    {
        zeroize_array(&mut self.0);
    }
}

} // verus!
