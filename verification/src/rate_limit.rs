//! The receive-path rate limiter: a token bucket with a sustained rate and a burst capacity.
//!
//! Time is counted in whole nanoseconds and tokens in billionths, so that the refill
//! `tokens + elapsed * rate` is exact integer arithmetic.

use crate::error::TunnelError;
use std::time::Instant;
use vstd::prelude::*;

verus! {

/// Nanoseconds in a second, and billionths in a token.
pub const NANOS_PER_SEC: u64 = 1_000_000_000;

/// A point on the monotonic clock of the standard library.
#[verifier::external_type_specification]
#[verifier::external_body]
pub struct ExInstant(Instant);

/// The bucket as a mathematical value. `tokens` counts billionths of a token; `last` is the
/// time of the last check in nanoseconds.
pub struct BucketModel {
    pub capacity: nat,
    pub rate: nat,
    pub tokens: nat,
    pub last: nat,
}

/// A bucket never holds more than its capacity.
pub open spec fn bucket_wf(m: BucketModel) -> bool {
    m.tokens <= m.capacity * 1_000_000_000
}

/// The nanoseconds that passed on the way from `last` to `now`; none where the clock did not
/// advance.
pub open spec fn elapsed(last: nat, now: nat) -> nat {
    if now >= last {
        (now - last) as nat
    } else {
        0
    }
}

/// The tokens in the bucket at `now`, before any is taken:
/// `min(capacity, tokens + elapsed * rate)`.
pub open spec fn refilled(m: BucketModel, now: nat) -> nat {
    let grown = m.tokens + elapsed(m.last, now) * m.rate;
    if grown <= m.capacity * 1_000_000_000 {
        grown
    } else {
        m.capacity * 1_000_000_000
    }
}

/// What one check at `now` does to a bucket: the bucket afterwards, and whether the datagram
/// is accepted. The bucket is refilled, the time of the last check becomes `now`, and one
/// token is taken where at least one is there.
pub open spec fn consume(m: BucketModel, now: nat) -> (BucketModel, bool) {
    let t = refilled(m, now);
    if t >= 1_000_000_000 {
        (
            BucketModel {
                capacity: m.capacity,
                rate: m.rate,
                tokens: (t - 1_000_000_000) as nat,
                last: now,
            },
            true,
        )
    } else {
        (BucketModel { capacity: m.capacity, rate: m.rate, tokens: t, last: now }, false)
    }
}

/// The bucket after checks at the times of `times`, in order.
pub open spec fn bucket_after(m: BucketModel, times: Seq<nat>) -> BucketModel
    decreases times.len(),
{
    if times.len() == 0 {
        m
    } else {
        consume(bucket_after(m, times.drop_last()), times.last()).0
    }
}

/// How many of the checks at the times of `times` accept.
pub open spec fn accepted_count(m: BucketModel, times: Seq<nat>) -> nat
    decreases times.len(),
{
    if times.len() == 0 {
        0
    } else {
        let before = bucket_after(m, times.drop_last());
        accepted_count(m, times.drop_last()) + if consume(before, times.last()).1 {
            1nat
        } else {
            0nat
        }
    }
}

/// The times of a trace never go back.
pub open spec fn monotonic(times: Seq<nat>) -> bool {
    forall|i: int, j: int| 0 <= i <= j < times.len() ==> times[i] <= times[j]
}

proof fn lemma_bucket_potential(m: BucketModel, times: Seq<nat>)
    requires
        bucket_wf(m),
        monotonic(times),
        times.len() > 0,
    ensures
        ({
            let after = bucket_after(m, times);
            &&& bucket_wf(after)
            &&& after.capacity == m.capacity
            &&& after.rate == m.rate
            &&& after.last == times.last()
            &&& accepted_count(m, times) * 1_000_000_000 + after.tokens <= m.capacity
                * 1_000_000_000 + (times.last() - times[0]) * m.rate
        }),
    decreases times.len(),
{
    let shorter = times.drop_last();
    let now = times.last();
    if shorter.len() == 0 {
        assert(bucket_after(m, shorter) == m);
        assert(accepted_count(m, shorter) == 0);
        assert((times.last() - times[0]) * m.rate == 0) by (nonlinear_arith)
            requires
                times.last() - times[0] == 0,
        ;
    } else {
        assert(monotonic(shorter));
        lemma_bucket_potential(m, shorter);
        let before = bucket_after(m, shorter);
        let prev = shorter.last();
        assert(prev == times[times.len() - 2]);
        assert(prev <= now);
        assert(shorter[0] == times[0]);
        assert(times[0] <= prev);
        assert((now - times[0]) * m.rate == (prev - times[0]) * m.rate + (now - prev) * m.rate)
            by (nonlinear_arith);
    }
}

/// In a window of time the accepted checks number at most the capacity plus what the rate
/// refills over the window's length: with the window's first and last check `d` nanoseconds
/// apart, at most `capacity + floor(d * rate / 10^9)` checks accept.
pub proof fn lemma_accepted_bounded(m: BucketModel, times: Seq<nat>)
    requires
        bucket_wf(m),
        monotonic(times),
        times.len() > 0,
    ensures
        accepted_count(m, times) <= m.capacity + ((times.last() - times[0]) * m.rate)
            / 1_000_000_000,
{
    lemma_bucket_potential(m, times);
    let a = accepted_count(m, times) as int;
    let c = m.capacity as int;
    let g = (times.last() - times[0]) * m.rate;
    assert(a * 1_000_000_000 <= c * 1_000_000_000 + g);
    assert(g >= 0) by (nonlinear_arith)
        requires
            g == (times.last() - times[0]) * m.rate,
            times.last() - times[0] >= 0,
            m.rate >= 0,
    ;
    assert(a <= c + g / 1_000_000_000) by (nonlinear_arith)
        requires
            a * 1_000_000_000 <= c * 1_000_000_000 + g,
            g >= 0,
    ;
}

/// Token-bucket rate limiter.
pub struct RateLimiter {
    /// Burst capacity in tokens.
    capacity: u32,
    /// Tokens at hand, in billionths.
    tokens: u64,
    /// Tokens added per second.
    refill_rate: u32,
    /// Time of the last check, in nanoseconds since `origin`.
    last_refill: u64,
    /// Where the limiter's clock starts.
    origin: Instant,
}

/// Calls `Instant::now`. Nothing is promised of the point in time that comes back.
#[verifier::external_body]
fn clock_start() -> Instant {
    Instant::now()
}

/// Calls `Instant::elapsed` for the whole nanoseconds since `origin`, at most `u64::MAX`.
/// Nothing is promised of the count that comes back.
#[verifier::external_body]
fn clock_nanos(origin: &Instant) -> u64 {
    u64::try_from(origin.elapsed().as_nanos()).unwrap_or(u64::MAX)
}

impl View for RateLimiter {
    type V = BucketModel;

    closed spec fn view(&self) -> BucketModel {
        BucketModel {
            capacity: self.capacity as nat,
            rate: self.refill_rate as nat,
            tokens: self.tokens as nat,
            last: self.last_refill as nat,
        }
    }
}

impl RateLimiter {
    /// A full bucket whose clock stands at `now_ns`.
    pub fn new_at(packets_per_second: u32, burst_size: u32, now_ns: u64) -> (l: Self)
        ensures
            l@ == (BucketModel {
                capacity: burst_size as nat,
                rate: packets_per_second as nat,
                tokens: burst_size as nat * 1_000_000_000,
                last: now_ns as nat,
            }),
            bucket_wf(l@),
    {
        Self {
            capacity: burst_size,
            tokens: burst_size as u64 * NANOS_PER_SEC,
            refill_rate: packets_per_second,
            last_refill: now_ns,
            origin: clock_start(),
        }
    }

    /// A full bucket whose clock starts now.
    pub fn new(packets_per_second: u32, burst_size: u32) -> (l: Self)
        ensures
            l@ == (BucketModel {
                capacity: burst_size as nat,
                rate: packets_per_second as nat,
                tokens: burst_size as nat * 1_000_000_000,
                last: 0,
            }),
            bucket_wf(l@),
    {
        Self::new_at(packets_per_second, burst_size, 0)
    }

    /// Checks one datagram at time `now_ns`: refills, takes a token and accepts, or rejects
    /// with `RateLimitExceeded` where less than one token is there.
    pub fn check_and_consume_at(&mut self, now_ns: u64) -> (res: Result<(), TunnelError>)
        ensures
            final(self)@ == consume(old(self)@, now_ns as nat).0,
            res is Ok <==> consume(old(self)@, now_ns as nat).1,
            res is Err ==> res->Err_0 == TunnelError::RateLimitExceeded,
            bucket_wf(final(self)@),
    {
        let passed: u64 = if now_ns >= self.last_refill {
            now_ns - self.last_refill
        } else {
            0
        };
        let cap: u64 = self.capacity as u64 * NANOS_PER_SEC;
        assert(passed * self.refill_rate <= 0xffff_ffff_ffff_ffff * 0xffff_ffff) by (nonlinear_arith)
            requires
                0 <= passed <= 0xffff_ffff_ffff_ffff,
                0 <= self.refill_rate <= 0xffff_ffff,
        ;
        let grown: u128 = self.tokens as u128 + passed as u128 * self.refill_rate as u128;
        let level: u64 = if grown <= cap as u128 {
            grown as u64
        } else {
            cap
        };
        assert(level == refilled(old(self)@, now_ns as nat));
        if level >= NANOS_PER_SEC {
            self.tokens = level - NANOS_PER_SEC;
            self.last_refill = now_ns;
            Ok(())
        } else {
            self.tokens = level;
            self.last_refill = now_ns;
            Err(TunnelError::RateLimitExceeded)
        }
    }

    /// The time that the limiter's clock shows, in nanoseconds.
    pub fn now(&self) -> u64 {
        clock_nanos(&self.origin)
    }

    /// Checks one datagram at the time that the limiter's clock shows.
    pub fn check_and_consume(&mut self) -> (res: Result<(), TunnelError>)
        ensures
            exists|now: nat|
                final(self)@ == (#[trigger] consume(old(self)@, now)).0 && (res is Ok <==> consume(
                    old(self)@,
                    now,
                ).1),
            res is Err ==> res->Err_0 == TunnelError::RateLimitExceeded,
            bucket_wf(final(self)@),
    {
        let now_ns = clock_nanos(&self.origin);
        self.check_and_consume_at(now_ns)
    }
}

} // verus!
