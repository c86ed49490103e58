//! Per-record AEAD nonces: the sequence number folded into a static IV.

use crate::endian::{lemma_u64_be_injective, u64_be_bytes, u64_to_be};
use vstd::prelude::*;

verus! {

/// Length in bytes of a nonce and of a static IV.
pub const NONCE_SIZE: usize = 12;

/// The nonce for sequence number `seq` under the static IV `iv`: the first four bytes of the
/// IV unchanged, the last eight each XORed with the matching byte of `seq`, big-endian.
pub open spec fn nonce_bytes(iv: Seq<u8>, seq: u64) -> Seq<u8>
    recommends
        iv.len() == 12,
{
    Seq::new(
        12,
        |i: int|
            if i < 4 {
                iv[i]
            } else {
                iv[i] ^ u64_be_bytes(seq)[i - 4]
            },
    )
}

/// Builds the nonce for `seq` under `static_iv`.
pub fn make_nonce(static_iv: [u8; 12], seq: u64) -> (nonce: [u8; 12])
    ensures
        nonce@ == nonce_bytes(static_iv@, seq),
{
    let s = u64_to_be(seq);
    let nonce = [
        static_iv[0],
        static_iv[1],
        static_iv[2],
        static_iv[3],
        static_iv[4] ^ s[0],
        static_iv[5] ^ s[1],
        static_iv[6] ^ s[2],
        static_iv[7] ^ s[3],
        static_iv[8] ^ s[4],
        static_iv[9] ^ s[5],
        static_iv[10] ^ s[6],
        static_iv[11] ^ s[7],
    ];
    assert(nonce@ =~= nonce_bytes(static_iv@, seq));
    nonce
}

proof fn lemma_xor_cancels(a: u8, x: u8, y: u8)
    requires
        a ^ x == a ^ y,
    ensures
        x == y,
{
    assert(a ^ x == a ^ y ==> x == y) by (bit_vector);
}

/// Under one static IV, two distinct sequence numbers give two distinct nonces.
pub proof fn lemma_distinct_sequences_distinct_nonces(iv: Seq<u8>, seq1: u64, seq2: u64)
    requires
        iv.len() == 12,
        seq1 != seq2,
    ensures
        nonce_bytes(iv, seq1) != nonce_bytes(iv, seq2),
{
    if nonce_bytes(iv, seq1) == nonce_bytes(iv, seq2) {
        let n1 = nonce_bytes(iv, seq1);
        let n2 = nonce_bytes(iv, seq2);
        assert forall|j: int| 0 <= j < 8 implies u64_be_bytes(seq1)[j] == u64_be_bytes(seq2)[j] by {
            assert(n1[j + 4] == n2[j + 4]);
            lemma_xor_cancels(iv[j + 4], u64_be_bytes(seq1)[j], u64_be_bytes(seq2)[j]);
        }
        assert(u64_be_bytes(seq1) =~= u64_be_bytes(seq2));
        lemma_u64_be_injective(seq1, seq2);
    }
}

/// The first four bytes of a nonce are those of the static IV.
pub proof fn lemma_nonce_keeps_iv_prefix(iv: Seq<u8>, seq: u64)
    requires
        iv.len() == 12,
    ensures
        nonce_bytes(iv, seq).subrange(0, 4) == iv.subrange(0, 4),
{
    assert(nonce_bytes(iv, seq).subrange(0, 4) =~= iv.subrange(0, 4));
}

} // verus!
