//! The anti-replay window: a sliding bitmap over the 2048 most recent sequence numbers.

use crate::error::TunnelError;
use vstd::prelude::*;

verus! {

/// How many sequence numbers below the highest accepted one the window tracks.
pub const REPLAY_WINDOW_SIZE: usize = 2048;

/// The window as a mathematical value: the highest accepted sequence number and the set of
/// accepted sequence numbers that the window still tracks.
#[verifier::ext_equal]
pub struct WindowModel {
    pub max: u64,
    pub seen: Set<u64>,
}

/// What offering `seq` to a window does: the window afterwards, and whether `seq` is accepted.
///
/// A sequence number above the peak is accepted and becomes the peak; what was seen stays
/// seen as far as it lies less than 2048 below the new peak. A sequence number at or below
/// the peak is accepted once, if it lies less than 2048 below the peak; otherwise the window
/// stays as it is.
pub open spec fn offer(w: WindowModel, seq: u64) -> (WindowModel, bool) {
    if seq > w.max {
        (
            WindowModel {
                max: seq,
                seen: Set::new(|s: u64| s == seq || (w.seen.contains(s) && seq - s < 2048)),
            },
            true,
        )
    } else if w.max - seq >= 2048 || w.seen.contains(seq) {
        (w, false)
    } else {
        (WindowModel { max: w.max, seen: w.seen.insert(seq) }, true)
    }
}

/// A window tracks only sequence numbers less than 2048 below its peak.
pub open spec fn model_wf(w: WindowModel) -> bool {
    forall|s: u64| w.seen.contains(s) ==> s <= w.max && w.max - s < 2048
}

/// The window after the sequence numbers of `trace` were offered to `w` in order.
pub open spec fn window_after(w: WindowModel, trace: Seq<u64>) -> WindowModel
    decreases trace.len(),
{
    if trace.len() == 0 {
        w
    } else {
        offer(window_after(w, trace.drop_last()), trace.last()).0
    }
}

/// Whether element `i` of `trace` is accepted when `trace` is offered to `w` in order.
pub open spec fn accepted_at(w: WindowModel, trace: Seq<u64>, i: int) -> bool
    recommends
        0 <= i < trace.len(),
{
    offer(window_after(w, trace.subrange(0, i)), trace[i]).1
}

/// Offering a sequence number keeps a window well formed, never lowers its peak, and keeps
/// the offered number from being accepted again right away.
pub proof fn lemma_offer_properties(w: WindowModel, seq: u64)
    requires
        model_wf(w),
    ensures
        model_wf(offer(w, seq).0),
        offer(w, seq).0.max >= w.max,
        offer(w, seq).1 ==> offer(w, seq).0.seen.contains(seq) && offer(w, seq).0.max >= seq,
        !offer(w, seq).1 ==> offer(w, seq).0 == w,
        offer(w, seq).1 <==> (seq > w.max || (w.max - seq < 2048 && !w.seen.contains(seq))),
{
}

/// A window accepts out-of-order arrivals within 2048 of its peak that it has not seen, and
/// rejects whatever lies 2048 or more below the peak.
pub proof fn lemma_window_bounds(w: WindowModel, seq: u64)
    ensures
        seq <= w.max && w.max - seq < 2048 && !w.seen.contains(seq) ==> offer(w, seq).1,
        seq <= w.max && w.max - seq >= 2048 ==> !offer(w, seq).1,
        seq > w.max ==> offer(w, seq).1,
{
}

/// A sequence number that a window bars, because it was seen or lies 2048 or more below the
/// peak, stays barred whatever is offered next.
pub proof fn lemma_barred_stays_barred_once(w: WindowModel, seq: u64, next: u64)
    requires
        model_wf(w),
        !offer(w, seq).1,
    ensures
        !offer(offer(w, next).0, seq).1,
        offer(offer(w, next).0, seq).0 == offer(w, next).0,
{
}

proof fn lemma_window_after_wf(w: WindowModel, trace: Seq<u64>)
    requires
        model_wf(w),
    ensures
        model_wf(window_after(w, trace)),
        window_after(w, trace).max >= w.max,
    decreases trace.len(),
{
    if trace.len() > 0 {
        lemma_window_after_wf(w, trace.drop_last());
        lemma_offer_properties(window_after(w, trace.drop_last()), trace.last());
    }
}

/// Once a number was accepted, the window either still tracks it or has moved 2048 or more
/// past it: `seq` stays barred whatever is offered afterwards.
proof fn lemma_barred_stays_barred(w: WindowModel, seq: u64, later: Seq<u64>)
    requires
        model_wf(w),
        seq <= w.max,
        w.seen.contains(seq) || w.max - seq >= 2048,
    ensures
        ({
            let v = window_after(w, later);
            seq <= v.max && (v.seen.contains(seq) || v.max - seq >= 2048)
        }),
    decreases later.len(),
{
    if later.len() > 0 {
        lemma_barred_stays_barred(w, seq, later.drop_last());
        lemma_window_after_wf(w, later.drop_last());
    }
}

proof fn lemma_window_after_split(w: WindowModel, trace: Seq<u64>, i: int)
    requires
        0 <= i <= trace.len(),
    ensures
        window_after(w, trace) == window_after(
            window_after(w, trace.subrange(0, i)),
            trace.subrange(i, trace.len() as int),
        ),
    decreases trace.len(),
{
    let tail = trace.subrange(i, trace.len() as int);
    if i == trace.len() {
        assert(trace.subrange(0, i) =~= trace);
    } else {
        let shorter = trace.drop_last();
        lemma_window_after_split(w, shorter, i);
        assert(shorter.subrange(0, i) =~= trace.subrange(0, i));
        assert(shorter.subrange(i, shorter.len() as int) =~= tail.drop_last());
        assert(tail.last() == trace.last());
    }
}

/// A window accepts any sequence number at most once: of two offers of the same number, in
/// whatever order the rest arrives, the later one is rejected if the earlier was accepted.
pub proof fn lemma_accepted_at_most_once(w: WindowModel, trace: Seq<u64>, i: int, j: int)
    requires
        model_wf(w),
        0 <= i < j < trace.len(),
        trace[i] == trace[j],
        accepted_at(w, trace, i),
    ensures
        !accepted_at(w, trace, j),
{
    let seq = trace[i];
    let before = window_after(w, trace.subrange(0, i));
    lemma_window_after_wf(w, trace.subrange(0, i));
    lemma_offer_properties(before, seq);
    let after = offer(before, seq).0;
    let upto = trace.subrange(0, i + 1);
    assert(upto.drop_last() =~= trace.subrange(0, i));
    assert(window_after(w, upto) == after);
    let prefix = trace.subrange(0, j);
    lemma_window_after_split(w, prefix, i + 1);
    assert(prefix.subrange(0, i + 1) =~= upto);
    lemma_barred_stays_barred(after, seq, prefix.subrange(i + 1, j));
}

/// Bit `i` of a bitmap of 32 words: bit `i % 64` of word `i / 64`.
pub open spec fn bit_at(words: Seq<u64>, i: int) -> bool {
    0 <= i < 2048 && (words[i / 64] >> ((i % 64) as u64)) & 1 == 1
}

/// The sliding window itself.
#[derive(Debug)]
pub struct ReplayWindow {
    /// Highest sequence number accepted so far.
    max_nonce: u64,
    /// Bit `i` stands for sequence number `max_nonce - i`.
    bitmap: [u64; 32],
}

proof fn lemma_zero_bitmap(words: Seq<u64>)
    requires
        words.len() == 32,
        forall|i: int| 0 <= i < 32 ==> words[i] == 0,
    ensures
        forall|j: int| !bit_at(words, j),
{
    assert forall|j: int| !bit_at(words, j) by {
        if 0 <= j < 2048 {
            let r = (j % 64) as u64;
            assert((0u64 >> r) & 1 == 0) by (bit_vector);
        }
    }
}

proof fn lemma_word_shift_moves_bits(old_words: Seq<u64>, new_words: Seq<u64>, k: int)
    requires
        old_words.len() == 32,
        new_words.len() == 32,
        0 <= k < 32,
        forall|i: int|
            0 <= i < 32 ==> new_words[i] == if i >= k {
                old_words[i - k]
            } else {
                0
            },
    ensures
        forall|j: int|
            0 <= j < 2048 ==> (#[trigger] bit_at(new_words, j) <==> j >= 64 * k && bit_at(
                old_words,
                j - 64 * k,
            )),
{
    assert forall|j: int| 0 <= j < 2048 implies (#[trigger] bit_at(new_words, j) <==> j >= 64 * k
        && bit_at(old_words, j - 64 * k)) by {
        let i = j / 64;
        let r = (j % 64) as u64;
        if i >= k {
            assert((j - 64 * k) / 64 == i - k);
            assert((j - 64 * k) % 64 == j % 64);
        } else {
            assert((0u64 >> r) & 1 == 0) by (bit_vector);
        }
    }
}

proof fn lemma_shifted_word_bit(w: u64, c: u64, b: u64, r: u64)
    requires
        0 < b < 64,
        r < 64,
    ensures
        r >= b ==> ((((w << b) | (c >> (64 - b) as u64)) >> r) & 1 == 1 <==> (w >> ((r - b) as u64))
            & 1 == 1),
        r < b ==> ((((w << b) | (c >> (64 - b) as u64)) >> r) & 1 == 1 <==> (c >> ((64 - b
            + r) as u64)) & 1 == 1),
{
    assert(0 < b < 64 && r < 64 && r >= b ==> ((((w << b) | (c >> ((64 - b) as u64))) >> r) & 1 == 1 <==> (w
        >> ((r - b) as u64)) & 1 == 1)) by (bit_vector);
    assert(0 < b < 64 && r < 64 && r < b ==> ((((w << b) | (c >> ((64 - b) as u64))) >> r) & 1 == 1 <==> (c
        >> ((64 - b + r) as u64)) & 1 == 1)) by (bit_vector);
}

proof fn lemma_bit_shift_moves_bits(old_words: Seq<u64>, new_words: Seq<u64>, b: u64)
    requires
        old_words.len() == 32,
        new_words.len() == 32,
        0 < b < 64,
        forall|i: int|
            0 <= i < 32 ==> new_words[i] == (old_words[i] << b) | (if i > 0 {
                old_words[i - 1] >> ((64 - b) as u64)
            } else {
                0
            }),
    ensures
        forall|j: int|
            0 <= j < 2048 ==> (#[trigger] bit_at(new_words, j) <==> j >= b && bit_at(
                old_words,
                j - b,
            )),
{
    assert forall|j: int| 0 <= j < 2048 implies (#[trigger] bit_at(new_words, j) <==> j >= b
        && bit_at(old_words, j - b)) by {
        let i = j / 64;
        let r = (j % 64) as u64;
        let w = old_words[i];
        if i > 0 {
            let c = old_words[i - 1];
            lemma_shifted_word_bit(w, c, b, r);
            if r >= b {
                assert((j - b) / 64 == i);
                assert((j - b) % 64 == r - b);
            } else {
                assert((j - b) / 64 == i - 1);
                assert((j - b) % 64 == 64 - b + r);
            }
        } else {
            assert((0u64 >> ((64 - b) as u64)) == 0) by (bit_vector);
            lemma_shifted_word_bit(w, 0, b, r);
            if r >= b {
                assert((j - b) / 64 == 0);
                assert((j - b) % 64 == r - b);
            } else {
                let t = (64 - b + r) as u64;
                assert((0u64 >> t) & 1 == 0) by (bit_vector);
            }
        }
    }
}

proof fn lemma_set_bit(old_words: Seq<u64>, new_words: Seq<u64>, d: int)
    requires
        old_words.len() == 32,
        new_words.len() == 32,
        0 <= d < 2048,
        forall|i: int|
            0 <= i < 32 ==> new_words[i] == if i == d / 64 {
                old_words[i] | (1u64 << ((d % 64) as u64))
            } else {
                old_words[i]
            },
    ensures
        forall|j: int| (#[trigger] bit_at(new_words, j) <==> j == d || bit_at(old_words, j)),
{
    assert forall|j: int| (#[trigger] bit_at(new_words, j) <==> j == d || bit_at(old_words, j)) by {
        if 0 <= j < 2048 {
            let r = (j % 64) as u64;
            let q = (d % 64) as u64;
            let w = old_words[j / 64];
            if j / 64 == d / 64 {
                assert(r < 64 && q < 64 ==> ((((w | (1u64 << q)) >> r) & 1 == 1) <==> (r == q || (w
                    >> r) & 1 == 1))) by (bit_vector);
            }
        }
    }
}

proof fn lemma_test_bit(w: u64, r: u64)
    requires
        r < 64,
    ensures
        (w & (1u64 << r)) != 0 <==> (w >> r) & 1 == 1,
{
    assert(r < 64 ==> ((w & (1u64 << r)) != 0 <==> (w >> r) & 1 == 1)) by (bit_vector);
}

/// Moves every word of the bitmap `k` places up and clears the `k` lowest words.
fn shift_words(bitmap: &mut [u64; 32], k: usize)
    requires
        0 < k < 32,
    ensures
        forall|i: int|
            0 <= i < 32 ==> final(bitmap)@[i] == if i >= k {
                old(bitmap)@[i - k]
            } else {
                0
            },
{
    let ghost orig = bitmap@;
    let mut i: usize = 32;
    while i > k
        invariant
            0 < k < 32,
            k <= i <= 32,
            forall|x: int| i <= x < 32 ==> bitmap@[x] == orig[x - k],
            forall|x: int| 0 <= x < i ==> bitmap@[x] == orig[x],
        decreases i,
    {
        i -= 1;
        bitmap[i] = bitmap[i - k];
    }
    let mut z: usize = 0;
    while z < k
        invariant
            0 < k < 32,
            z <= k,
            forall|x: int| k <= x < 32 ==> bitmap@[x] == orig[x - k],
            forall|x: int| 0 <= x < z ==> bitmap@[x] == 0,
        decreases k - z,
    {
        bitmap[z] = 0;
        z += 1;
    }
}

/// Shifts the whole bitmap `b` bit places up, carrying from each word into the next.
fn shift_bits(bitmap: &mut [u64; 32], b: u64)
    requires
        0 < b < 64,
    ensures
        forall|i: int|
            0 <= i < 32 ==> final(bitmap)@[i] == (old(bitmap)@[i] << b) | (if i > 0 {
                old(bitmap)@[i - 1] >> ((64 - b) as u64)
            } else {
                0
            }),
{
    let ghost orig = bitmap@;
    let mut carry: u64 = 0;
    let mut i: usize = 0;
    while i < 32
        invariant
            0 < b < 64,
            i <= 32,
            carry == if i > 0 {
                orig[i - 1] >> ((64 - b) as u64)
            } else {
                0
            },
            forall|x: int| i <= x < 32 ==> bitmap@[x] == orig[x],
            forall|x: int|
                0 <= x < i ==> bitmap@[x] == (orig[x] << b) | (if x > 0 {
                    orig[x - 1] >> ((64 - b) as u64)
                } else {
                    0
                }),
        decreases 32 - i,
    {
        let word = bitmap[i];
        let new_carry = word >> (64 - b);
        bitmap[i] = (word << b) | carry;
        carry = new_carry;
        i += 1;
    }
}

impl View for ReplayWindow {
    type V = WindowModel;

    closed spec fn view(&self) -> WindowModel {
        WindowModel {
            max: self.max_nonce,
            seen: Set::new(
                |s: u64| s <= self.max_nonce && bit_at(self.bitmap@, self.max_nonce - s),
            ),
        }
    }
}

impl ReplayWindow {
    /// The highest sequence number accepted so far; 0 before any.
    pub open spec fn max_accepted(&self) -> u64 {
        self@.max
    }

    /// A window that has accepted nothing.
    pub fn new() -> (w: Self)
        ensures
            w@.max == 0,
            w@.seen == Set::<u64>::empty(),
            model_wf(w@),
    {
        let w = Self { max_nonce: 0, bitmap: [0u64; 32] };
        proof {
            lemma_zero_bitmap(w.bitmap@);
            assert(w@.seen =~= Set::<u64>::empty());
        }
        w
    }

    /// Every window is well formed.
    pub proof fn lemma_view_wf(&self)
        ensures
            model_wf(self@),
    {
    }

    /// The highest sequence number accepted so far.
    pub fn peak(&self) -> (m: u64)
        ensures
            m == self.max_accepted(),
    {
        self.max_nonce
    }

    /// Offers `nonce` to the window: accepts it and records it, or rejects it with
    /// `ReplayDetected` and leaves the window as it was.
    pub fn check_and_update(&mut self, nonce: u64) -> (res: Result<(), TunnelError>)
        ensures
            final(self)@ == offer(old(self)@, nonce).0,
            res is Ok <==> offer(old(self)@, nonce).1,
            res is Err ==> res->Err_0 == TunnelError::ReplayDetected,
    {
        if nonce <= self.max_nonce {
            let diff = self.max_nonce - nonce;
            if diff >= 2048 {
                return Err(TunnelError::ReplayDetected);
            }
            let index = (diff / 64) as usize;
            let bit = diff % 64;
            let word = self.bitmap[index];
            proof {
                lemma_test_bit(word, bit);
            }
            if (word & (1u64 << bit)) != 0 {
                return Err(TunnelError::ReplayDetected);
            }
            let ghost before = self.bitmap@;
            self.bitmap[index] = word | (1u64 << bit);
            proof {
                lemma_set_bit(before, self.bitmap@, diff as int);
                assert(self@.seen =~= old(self)@.seen.insert(nonce));
            }
        } else {
            let diff = nonce - self.max_nonce;
            let ghost before = self.bitmap@;
            if diff < 2048 {
                let words_to_shift = (diff / 64) as usize;
                let bits_to_shift = diff % 64;
                if words_to_shift > 0 {
                    shift_words(&mut self.bitmap, words_to_shift);
                }
                let ghost mid = self.bitmap@;
                proof {
                    if words_to_shift > 0 {
                        lemma_word_shift_moves_bits(before, mid, words_to_shift as int);
                    }
                }
                if bits_to_shift > 0 {
                    shift_bits(&mut self.bitmap, bits_to_shift);
                }
                proof {
                    if bits_to_shift > 0 {
                        lemma_bit_shift_moves_bits(mid, self.bitmap@, bits_to_shift);
                    }
                    assert forall|j: int| 0 <= j < 2048 implies (#[trigger] bit_at(
                        self.bitmap@,
                        j,
                    ) <==> j >= diff && bit_at(before, j - diff)) by {
                        if bits_to_shift > 0 && j >= bits_to_shift {
                            assert(bit_at(self.bitmap@, j) <==> bit_at(mid, j - bits_to_shift));
                        }
                    }
                }
            } else {
                self.bitmap = [0u64; 32];
                proof {
                    lemma_zero_bitmap(self.bitmap@);
                }
            }
            let ghost shifted = self.bitmap@;
            let first = self.bitmap[0];
            self.bitmap[0] = first | 1u64;
            self.max_nonce = nonce;
            proof {
                assert(1u64 << 0u64 == 1u64) by (bit_vector);
                lemma_set_bit(shifted, self.bitmap@, 0);
                let expected = offer(old(self)@, nonce).0;
                assert forall|s: u64| self@.seen.contains(s) <==> expected.seen.contains(s) by {
                    if s <= nonce {
                        let j = nonce - s;
                        if s <= old(self).max_nonce {
                            assert(j - diff == old(self).max_nonce - s);
                        }
                    }
                }
                assert(self@.seen =~= expected.seen);
            }
        }
        Ok(())
    }
}

impl Default for ReplayWindow {
    fn default() -> (w: Self)
        ensures
            w@.max == 0,
            w@.seen == Set::<u64>::empty(),
    {
        Self::new()
    }
}

} // verus!
