//! Overwriting secrets in place, as the `zeroize` crate does it.

use vstd::prelude::*;
use zeroize::Zeroize;

verus! {

/// A sequence of `n` zero bytes.
pub open spec fn zeros(n: nat) -> Seq<u8> {
    Seq::new(n, |i: int| 0u8)
}

/// Calls `Zeroize::zeroize` on a byte array.
///
/// Trusted: after the call every byte of the array is zero; the call does not unwind.
#[verifier::external_body]
pub(crate) fn zeroize_array<const N: usize>(buf: &mut [u8; N])
    ensures
        final(buf)@ == zeros(N as nat),
    opens_invariants none
    no_unwind
{
    buf.zeroize();
}

/// Calls `Zeroize::zeroize` on a byte vector, which overwrites its bytes with zeros and
/// then clears it.
///
/// Trusted: after the call the vector is empty; the call does not unwind.
#[verifier::external_body]
pub(crate) fn zeroize_vec(buf: &mut Vec<u8>)
    ensures
        final(buf)@ == Seq::<u8>::empty(),
    opens_invariants none
    no_unwind
{
    buf.zeroize();
}

} // verus!
