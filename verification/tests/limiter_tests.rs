use cryprq::buffer_pool::BufferPool;
use cryprq::error::TunnelError;
use cryprq::rate_limit::RateLimiter;

#[test]
fn test_rate_limiter_basic() {
    let mut limiter = RateLimiter::new(10, 10); // 10 pps, 10 burst

    // Should accept up to burst size
    for _ in 0..10 {
        assert!(limiter.check_and_consume().is_ok());
    }

    // Next packet should be rejected (bucket empty)
    assert!(matches!(limiter.check_and_consume(), Err(TunnelError::RateLimitExceeded)));
}

#[test]
fn test_rate_limiter_refill() {
    let mut limiter = RateLimiter::new_at(10, 5, 0); // 10 pps, 5 burst

    // Consume all tokens
    for _ in 0..5 {
        assert!(limiter.check_and_consume_at(0).is_ok());
    }

    // Bucket empty
    assert!(matches!(limiter.check_and_consume_at(0), Err(TunnelError::RateLimitExceeded)));

    // Wait for refill (200ms = 2 tokens at 10 pps)
    let later = 200_000_000;

    // Should accept 2 packets now
    assert!(limiter.check_and_consume_at(later).is_ok());
    assert!(limiter.check_and_consume_at(later).is_ok());

    // Third should fail
    assert!(matches!(limiter.check_and_consume_at(later), Err(TunnelError::RateLimitExceeded)));
}

#[test]
fn test_rate_limiter_burst_then_sustained() {
    let mut limiter = RateLimiter::new(100, 200); // 100 pps sustained, 200 burst

    // Consume burst
    for _ in 0..200 {
        assert!(limiter.check_and_consume().is_ok());
    }

    // Exceeded
    assert!(matches!(limiter.check_and_consume(), Err(TunnelError::RateLimitExceeded)));
}

#[test]
fn rate_limiter_refills_exactly() {
    let mut limiter = RateLimiter::new_at(3, 2, 1_000);
    assert!(limiter.check_and_consume_at(1_000).is_ok());
    assert!(limiter.check_and_consume_at(1_000).is_ok());
    assert!(limiter.check_and_consume_at(1_000).is_err());
    // One token takes a third of a second: one nanosecond short of it is not enough.
    assert!(limiter.check_and_consume_at(1_000 + 333_333_333).is_err());
    // The fraction is kept: one more nanosecond completes the token.
    assert!(limiter.check_and_consume_at(1_000 + 333_333_334).is_ok());
    assert!(limiter.check_and_consume_at(1_000 + 333_333_334).is_err());
    // A long pause fills the bucket to its capacity and no further.
    let much_later = 1_000 + 3_600_000_000_000;
    assert!(limiter.check_and_consume_at(much_later).is_ok());
    assert!(limiter.check_and_consume_at(much_later).is_ok());
    assert!(limiter.check_and_consume_at(much_later).is_err());
    // A clock that steps back adds nothing.
    assert!(limiter.check_and_consume_at(0).is_err());
}

#[test]
fn rate_limiter_accepts_at_most_capacity_plus_refill() {
    // 1000 per second sustained, 2000 burst, one call every 100 microseconds for 3 seconds.
    let mut limiter = RateLimiter::new_at(1000, 2000, 0);
    let mut accepted = 0u64;
    let mut now = 0u64;
    while now <= 3_000_000_000 {
        if limiter.check_and_consume_at(now).is_ok() {
            accepted += 1;
        }
        now += 100_000;
    }
    assert_eq!(accepted, 2000 + 3 * 1000);
}

#[test]
fn rate_limiter_with_extreme_parameters() {
    let mut limiter = RateLimiter::new_at(u32::MAX, u32::MAX, u64::MAX);
    assert!(limiter.check_and_consume_at(0).is_ok());
    assert!(limiter.check_and_consume_at(u64::MAX).is_ok());
    let mut empty = RateLimiter::new_at(0, 0, 0);
    assert!(empty.check_and_consume_at(u64::MAX).is_err());
}

#[test]
fn test_buffer_pool_basic() {
    let mut pool = BufferPool::new(4);

    // Get buffers
    let buf1 = pool.get();
    let buf2 = pool.get();

    assert_eq!(buf1.capacity(), 65535);
    assert_eq!(buf2.capacity(), 65535);

    // Return to pool
    pool.put(buf1);
    pool.put(buf2);

    // Get again (should reuse)
    let buf3 = pool.get();
    assert_eq!(buf3.capacity(), 65535);
}

#[test]
fn test_buffer_pool_reuse() {
    let mut pool = BufferPool::new(2);

    // Exhaust pool
    let buf1 = pool.get();
    let buf2 = pool.get();

    // Pool empty - should allocate new
    let buf3 = pool.get();
    assert_eq!(buf3.capacity(), 65535);

    // Return buffers
    pool.put(buf1);
    pool.put(buf2);
    pool.put(buf3);

    // Should have 2 in pool (capacity limit)
    let buf4 = pool.get();
    let buf5 = pool.get();
    assert_eq!(buf4.capacity(), 65535);
    assert_eq!(buf5.capacity(), 65535);
}

#[test]
fn test_buffer_pool_clear_on_return() {
    let mut pool = BufferPool::new(2);

    let mut buf = pool.get();
    buf.extend_from_slice(&[1, 2, 3, 4, 5]);
    assert_eq!(buf.len(), 5);

    // Return should clear
    pool.put(buf);

    let buf2 = pool.get();
    assert_eq!(buf2.len(), 0); // Should be empty
}

#[test]
fn buffer_pool_keeps_no_more_than_its_capacity() {
    let mut pool = BufferPool::new(1);
    let first = pool.get();
    let second = pool.get();
    let mut marked = first;
    marked.reserve_exact(100_000);
    let marked_capacity = marked.capacity();
    pool.put(marked);
    // The pool is full now: the second buffer is dropped.
    pool.put(second);
    assert_eq!(pool.get().capacity(), marked_capacity);
    // The pool is empty again: a fresh buffer comes back.
    assert_eq!(pool.get().capacity(), 65535);
}

#[test]
fn buffer_pool_hands_out_oldest_first() {
    let mut pool = BufferPool::new(3);
    let a = pool.get();
    let b = pool.get();
    let c = pool.get();
    let mut big = a;
    big.reserve_exact(70_000);
    let big_capacity = big.capacity();
    pool.put(big);
    pool.put(b);
    pool.put(c);
    assert_eq!(pool.get().capacity(), big_capacity);
    assert_eq!(pool.get().capacity(), 65535);
}
