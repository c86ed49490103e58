//! Padding of packets against traffic analysis.

use crate::random::random_bytes;
use vstd::prelude::*;
use vstd::slice::{slice_subrange, slice_to_vec};

verus! {

/// How packets are padded.
#[derive(Debug, Clone)]
pub struct PaddingConfig {
    /// Smallest packet size, in bytes.
    pub min_packet_size: usize,
    /// Largest packet size, in bytes.
    pub max_packet_size: usize,
    /// The size that shorter packets are padded to.
    pub target_packet_size: usize,
    /// Whether traffic is generated at a constant rate.
    pub constant_rate: bool,
    /// Interval between constant-rate packets, in milliseconds.
    pub constant_rate_interval_ms: u64,
}

impl Default for PaddingConfig {
    fn default() -> (c: Self)
        ensures
            c.min_packet_size == 64,
            c.max_packet_size == 1500,
            c.target_packet_size == 512,
            !c.constant_rate,
            c.constant_rate_interval_ms == 100,
    {
        Self {
            min_packet_size: 64,
            max_packet_size: 1500,
            target_packet_size: 512,
            constant_rate: false,
            constant_rate_interval_ms: 100,
        }
    }
}

/// Pads a packet.
///
/// A packet shorter than the target size is followed by random bytes up to the target size.
/// A packet at or over the target size stays as it is, unless it is over the largest size,
/// which it is then cut to.
pub fn pad_packet(data: &[u8], config: &PaddingConfig) -> (padded: Vec<u8>)
    ensures
        data@.len() < config.target_packet_size ==> padded@.len() == config.target_packet_size
            && padded@.subrange(0, data@.len() as int) == data@,
        data@.len() >= config.target_packet_size && data@.len() > config.max_packet_size
            ==> padded@ == data@.subrange(0, config.max_packet_size as int),
        data@.len() >= config.target_packet_size && data@.len() <= config.max_packet_size
            ==> padded@ == data@,
{
    let current_size = data.len();
    if current_size >= config.target_packet_size {
        if current_size > config.max_packet_size {
            return slice_to_vec(slice_subrange(data, 0, config.max_packet_size));
        }
        return slice_to_vec(data);
    }
    let padding_needed = config.target_packet_size - current_size;
    let mut padded = slice_to_vec(data);
    let filler = random_bytes(padding_needed);
    padded.extend_from_slice(filler.as_slice());
    assert(padded@.subrange(0, data@.len() as int) =~= data@);
    padded
}

/// Removes the padding of a packet whose length before padding is known: the first
/// `original_len` bytes, or the whole packet where it is shorter than that.
pub fn unpad_packet(padded: &[u8], original_len: usize) -> (data: Vec<u8>)
    ensures
        original_len > padded@.len() ==> data@ == padded@,
        original_len <= padded@.len() ==> data@ == padded@.subrange(0, original_len as int),
{
    if original_len > padded.len() {
        return slice_to_vec(padded);
    }
    slice_to_vec(slice_subrange(padded, 0, original_len))
}

/// Length in bytes of a packet padded to the fixed outer size.
pub const OUTER_LEN: usize = 1480;

/// A packet padded with zeros to `OUTER_LEN` bytes, or cut to them.
pub open spec fn zero_padded(plain: Seq<u8>) -> Seq<u8> {
    Seq::new(
        1480,
        |i: int|
            if i < plain.len() {
                plain[i]
            } else {
                0u8
            },
    )
}

/// The index of the first zero byte of `b` at or after `i`, or the length of `b` where there
/// is none.
pub open spec fn first_zero_from(b: Seq<u8>, i: int) -> int
    decreases b.len() - i,
{
    if i < 0 || i >= b.len() {
        b.len() as int
    } else if b[i] == 0 {
        i
    } else {
        first_zero_from(b, i + 1)
    }
}

/// What removing zero padding yields: the bytes before the first zero byte, or nothing where
/// the first byte is zero.
pub open spec fn zero_unpadded(buf: Seq<u8>) -> Option<Seq<u8>> {
    let n = first_zero_from(buf, 0);
    if n == 0 {
        None
    } else {
        Some(buf.subrange(0, n))
    }
}

/// Pads a packet with zeros to `OUTER_LEN` bytes; a longer packet is cut.
pub fn pad_to_1480(plain: &[u8]) -> (buf: [u8; 1480])
    ensures
        buf@ == zero_padded(plain@),
{
    let mut buf = [0u8; 1480];
    let len = if plain.len() < OUTER_LEN {
        plain.len()
    } else {
        OUTER_LEN
    };
    let mut i: usize = 0;
    while i < len
        invariant
            i <= len <= 1480,
            len <= plain@.len(),
            forall|j: int| 0 <= j < i ==> buf@[j] == plain@[j],
            forall|j: int| i <= j < 1480 ==> buf@[j] == 0,
        decreases len - i,
    {
        buf[i] = plain[i];
        i += 1;
    }
    assert(buf@ =~= zero_padded(plain@));
    buf
}

/// Removes zero padding: the bytes before the first zero byte, or nothing where the first
/// byte is zero.
pub fn unpad(buf: &[u8; 1480]) -> (res: Option<Vec<u8>>)
    ensures
        match zero_unpadded(buf@) {
            Some(p) => res is Some && res.unwrap()@ == p,
            None => res is None,
        },
{
    let mut first_zero: usize = 0;
    while first_zero < OUTER_LEN && buf[first_zero] != 0
        invariant
            first_zero <= 1480,
            first_zero_from(buf@, 0) == first_zero_from(buf@, first_zero as int),
        decreases 1480 - first_zero,
    {
        first_zero += 1;
    }
    if first_zero == 0 {
        return None;
    }
    Some(slice_to_vec(slice_subrange(buf.as_slice(), 0, first_zero)))
}

proof fn lemma_first_zero_skips_nonzero(b: Seq<u8>, i: int, n: int)
    requires
        0 <= i <= n <= b.len(),
        forall|j: int| i <= j < n ==> b[j] != 0,
        n == b.len() || b[n] == 0,
    ensures
        first_zero_from(b, i) == n,
    decreases n - i,
{
    if i < n {
        lemma_first_zero_skips_nonzero(b, i + 1, n);
    }
}

/// A packet of 1 to 1480 bytes, none of them zero, comes back from its zero padding as it
/// went in.
pub proof fn lemma_zero_padding_roundtrip(plain: Seq<u8>)
    requires
        0 < plain.len() <= 1480,
        forall|i: int| 0 <= i < plain.len() ==> plain[i] != 0,
    ensures
        zero_unpadded(zero_padded(plain)) == Some(plain),
{
    let buf = zero_padded(plain);
    lemma_first_zero_skips_nonzero(buf, 0, plain.len() as int);
    assert(buf.subrange(0, plain.len() as int) =~= plain);
}

} // verus!
