//! A hash-based commitment by which a peer shows knowledge of a secret.

use crate::hash::blake3_hash;
use crate::util::{bytes_equal, concat3};
use vstd::prelude::*;

verus! {

/// A commitment to a secret under a challenge, and the response that goes with it.
#[derive(Debug, Clone)]
pub struct ZkProof {
    commitment: [u8; 32],
    response: [u8; 32],
}

/// The commitment to `secret` under `challenge`: the BLAKE3 hash of the two.
pub open spec fn commitment_of(secret: Seq<u8>, challenge: Seq<u8>) -> Seq<u8> {
    blake3_hash(secret + challenge)
}

/// The response to a commitment: the BLAKE3 hash of the commitment and the secret.
pub open spec fn response_of(commitment: Seq<u8>, secret: Seq<u8>) -> Seq<u8> {
    blake3_hash(commitment + secret)
}

impl ZkProof {
    /// The commitment.
    pub closed spec fn spec_commitment(&self) -> Seq<u8> {
        self.commitment@
    }

    /// The response.
    pub closed spec fn spec_response(&self) -> Seq<u8> {
        self.response@
    }

    /// The commitment.
    pub fn commitment(&self) -> (c: &[u8; 32])
        ensures
            c@ == self.spec_commitment(),
    {
        &self.commitment
    }

    /// The response.
    pub fn response(&self) -> (r: &[u8; 32])
        ensures
            r@ == self.spec_response(),
    {
        &self.response
    }
}

/// Commits to `secret` under `challenge`.
pub fn generate_proof(secret: &[u8; 32], challenge: &[u8; 32]) -> (proof: ZkProof)
    ensures
        proof.spec_commitment() == commitment_of(secret@, challenge@),
        proof.spec_response() == response_of(commitment_of(secret@, challenge@), secret@),
{
    let empty: [u8; 0] = [];
    let first = concat3(secret.as_slice(), challenge.as_slice(), empty.as_slice());
    assert(first@ =~= secret@ + challenge@);
    let commitment = crate::hash::blake3(first.as_slice());
    let second = concat3(commitment.as_slice(), secret.as_slice(), empty.as_slice());
    assert(second@ =~= commitment@ + secret@);
    let response = crate::hash::blake3(second.as_slice());
    ZkProof { commitment, response }
}

/// Whether the proof's commitment is the one to `public_info` under `challenge`.
pub fn verify_proof(proof: &ZkProof, challenge: &[u8; 32], public_info: &[u8; 32]) -> (ok: bool)
    ensures
        ok == (proof.spec_commitment() == commitment_of(public_info@, challenge@)),
{
    let empty: [u8; 0] = [];
    let input = concat3(public_info.as_slice(), challenge.as_slice(), empty.as_slice());
    assert(input@ =~= public_info@ + challenge@);
    let expected = crate::hash::blake3(input.as_slice());
    bytes_equal(proof.commitment.as_slice(), expected.as_slice())
}

} // verus!
