use discogger::rate_limit::{Acquire, RateLimiter};

#[test]
fn exhausted_sync_makes_acquire_wait() {
    let mut l = RateLimiter::new(60, 0);
    l.sync_from_headers(60, 60, 500);
    assert_eq!(l.acquire(500), Acquire::Wait(1000));
    assert_eq!(l.tokens, 0);
}

#[test]
fn single_token_bucket_spacing() {
    let mut l = RateLimiter::new(1, 0);
    assert_eq!(l.acquire(0), Acquire::Ready);
    assert_eq!(l.acquire(0), Acquire::Wait(60000));
    assert_eq!(l.acquire(59_999), Acquire::Wait(60000));
    assert_eq!(l.acquire(60_000), Acquire::Ready);
}

#[test]
fn full_bucket_serves_capacity_then_waits() {
    let mut l = RateLimiter::new(3, 10);
    assert_eq!(l.acquire(10), Acquire::Ready);
    assert_eq!(l.acquire(10), Acquire::Ready);
    assert_eq!(l.acquire(10), Acquire::Ready);
    assert_eq!(l.acquire(10), Acquire::Wait(20000));
}

#[test]
fn refill_is_capped() {
    let mut l = RateLimiter::new(25, 0);
    l.sync_from_headers(20, 25, 0);
    assert_eq!(l.tokens, 5 * 60000);
    l.refill(1000);
    assert_eq!(l.tokens, 5 * 60000 + 25 * 1000);
    l.refill(u64::MAX);
    assert_eq!(l.tokens, 25 * 60000);
    assert_eq!(l.last_refill, u64::MAX);
}

#[test]
fn sync_saturates_and_zero_limit_waits() {
    let mut l = RateLimiter::new(60, 0);
    l.sync_from_headers(100, 60, 0);
    assert_eq!(l.tokens, 0);
    assert_eq!(l.max_tokens, 60);
    l.sync_from_headers(0, 0, 0);
    assert_eq!(l.acquire(10_000), Acquire::Wait(60000));
    let mut l = RateLimiter::new(7, 0);
    l.sync_from_headers(7, 7, 0);
    assert_eq!(l.acquire(0), Acquire::Wait(8572));
}

#[test]
fn clock_going_back_adds_nothing() {
    let mut l = RateLimiter::new(2, 1000);
    l.sync_from_headers(2, 2, 1000);
    l.refill(500);
    assert_eq!(l.tokens, 0);
    assert_eq!(l.last_refill, 500);
}
