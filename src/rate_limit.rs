//! A continuously refilling token bucket, kept in exact integer units.
//!
//! Time is in milliseconds and tokens in sixtieth-thousandths, so that a
//! bucket of `max_tokens` per minute refills by exactly `max_tokens` units per
//! millisecond. The caller supplies the clock and performs the waiting.
use vstd::prelude::*;

verus! {

/// Units in one token; also the milliseconds in one minute.
pub const TOKEN: u64 = 60000;

/// What `acquire` decided.
#[derive(Clone, Copy, Debug, PartialEq, Eq, Structural)]
pub enum Acquire {
    /// A token was taken.
    Ready,
    /// No token is there: wait this many milliseconds, then try again.
    Wait(u64),
}

/// The bucket: at most `max_tokens` tokens, refilled at `max_tokens` per
/// minute since `last_refill`.
#[derive(Clone, Copy, Debug, PartialEq, Eq, Structural)]
pub struct RateLimiter {
    /// Capacity in tokens, which is also the refill rate per minute.
    pub max_tokens: u32,
    /// Tokens held, in units of `1 / TOKEN`.
    pub tokens: u64,
    /// Time of the last refill, in milliseconds.
    pub last_refill: u64,
}

/// The bucket holds no more than its capacity.
pub open spec fn wf(l: RateLimiter) -> bool {
    l.tokens <= l.max_tokens * TOKEN
}

/// Tokens after `elapsed` milliseconds of refilling, capped at the capacity.
pub open spec fn refilled(tokens: nat, max_tokens: nat, elapsed: nat) -> nat {
    let t = tokens + elapsed * max_tokens;
    if t > max_tokens * TOKEN {
        (max_tokens * TOKEN) as nat
    } else {
        t
    }
}

/// The bucket refilled up to `now`.
pub open spec fn after_refill(l: RateLimiter, now: u64) -> RateLimiter {
    let elapsed: nat = if now >= l.last_refill { (now - l.last_refill) as nat } else { 0 };
    RateLimiter {
        max_tokens: l.max_tokens,
        tokens: refilled(l.tokens as nat, l.max_tokens as nat, elapsed) as u64,
        last_refill: now,
    }
}

/// Milliseconds for one token to accrue at the bucket's rate (a minute when
/// the rate is zero, after which the bucket is checked again).
pub open spec fn token_interval(max_tokens: nat) -> nat {
    if max_tokens == 0 {
        TOKEN as nat
    } else {
        ((TOKEN + max_tokens - 1) as int / max_tokens as int) as nat
    }
}

/// The outcome of `acquire` at `now`: after refilling, a whole token is taken
/// if there is one; else the caller is told to wait one token interval.
pub open spec fn acquire_step(l: RateLimiter, now: u64) -> (RateLimiter, Acquire) {
    let r = after_refill(l, now);
    if r.tokens >= TOKEN {
        (RateLimiter { tokens: (r.tokens - TOKEN) as u64, ..r }, Acquire::Ready)
    } else {
        (r, Acquire::Wait(token_interval(r.max_tokens as nat) as u64))
    }
}

/// The bucket re-anchored on the server's count: capacity `limit`, holding
/// `limit - used` tokens (none when `used` reaches the limit).
pub open spec fn after_sync(used: u32, limit: u32, now: u64) -> RateLimiter {
    RateLimiter {
        max_tokens: limit,
        tokens: (if used >= limit { 0 } else { (limit - used) * TOKEN }) as u64,
        last_refill: now,
    }
}

impl RateLimiter {
    /// A full bucket of `max_per_minute` tokens, refilling at that rate.
    pub fn new(max_per_minute: u32, now: u64) -> (r: RateLimiter)
        ensures
            wf(r),
            r.max_tokens == max_per_minute,
            r.tokens == max_per_minute * TOKEN,
            r.last_refill == now,
    {
        assert(max_per_minute * TOKEN <= 0xFFFF_FFFF * 60000) by (nonlinear_arith);
        RateLimiter { max_tokens: max_per_minute, tokens: max_per_minute as u64 * TOKEN, last_refill: now }
    }

    /// Adds what accrued since the last refill, up to the capacity.
    pub fn refill(&mut self, now: u64)
        requires
            wf(*old(self)),
        ensures
            wf(*final(self)),
            *final(self) == after_refill(*old(self), now),
    {
        let max = self.max_tokens as u64;
        let cap = max * TOKEN;
        assert(cap == self.max_tokens * TOKEN);
        assert(cap <= 0xFFFF_FFFF * 60000) by (nonlinear_arith)
            requires cap == max * 60000, max <= 0xFFFF_FFFF;
        let elapsed: u64 = if now >= self.last_refill { now - self.last_refill } else { 0 };
        let ghost t = self.tokens + elapsed * max;
        if elapsed >= TOKEN {
            assert(elapsed * max >= TOKEN * max) by (nonlinear_arith)
                requires elapsed >= TOKEN;
            assert(t >= cap);
            self.tokens = cap;
        } else {
            assert(elapsed * max <= 60000 * 0xFFFF_FFFF) by (nonlinear_arith)
                requires elapsed < 60000, max <= 0xFFFF_FFFF;
            let t2 = self.tokens + elapsed * max;
            self.tokens = if t2 > cap { cap } else { t2 };
        }
        self.last_refill = now;
    }

    /// Refills, then takes a token if a whole one is there; otherwise says
    /// how long to wait before trying again.
    pub fn acquire(&mut self, now: u64) -> (r: Acquire)
        requires
            wf(*old(self)),
        ensures
            wf(*final(self)),
            (*final(self), r) == acquire_step(*old(self), now),
    {
        self.refill(now);
        if self.tokens >= TOKEN {
            self.tokens = self.tokens - TOKEN;
            Acquire::Ready
        } else {
            let max = self.max_tokens as u64;
            if max == 0 {
                Acquire::Wait(TOKEN)
            } else {
                Acquire::Wait((TOKEN + max - 1) / max)
            }
        }
    }

    /// Takes the server's view: capacity `limit`, `limit - used` tokens left
    /// (saturating at zero), refill counted from `now`.
    pub fn sync_from_headers(&mut self, used: u32, limit: u32, now: u64)
        ensures
            wf(*final(self)),
            *final(self) == after_sync(used, limit, now),
    {
        let remaining: u32 = if used >= limit { 0 } else { limit - used };
        assert(remaining * TOKEN <= limit * TOKEN) by (nonlinear_arith)
            requires remaining <= limit;
        assert(limit * TOKEN <= 0xFFFF_FFFF * 60000) by (nonlinear_arith)
            requires limit <= 0xFFFF_FFFF;
        self.max_tokens = limit;
        self.tokens = remaining as u64 * TOKEN;
        self.last_refill = now;
    }
}

/// Right after the server reports its limit used up, `acquire` does not
/// hand out a token but asks to wait.
pub proof fn lemma_exhausted_sync_waits(used: u32, limit: u32, now: u64)
    requires
        used >= limit,
    ensures
        acquire_step(after_sync(used, limit, now), now).1 is Wait,
{
    let l = after_sync(used, limit, now);
    assert(l.tokens == 0);
    assert(0nat * (limit as nat) == 0) by (nonlinear_arith);
    assert(refilled(0, limit as nat, 0) == 0);
}

/// A bucket of one token per minute: the first `acquire` is served at once,
/// and a second one is asked to wait until a whole minute (one token
/// interval) has passed since the first.
pub proof fn lemma_single_token_spacing(start: u64, later: u64)
    requires
        start <= later < start + TOKEN,
    ensures
        acquire_step(RateLimiter { max_tokens: 1, tokens: TOKEN, last_refill: start }, start).1
            == Acquire::Ready,
        ({
            let first = acquire_step(
                RateLimiter { max_tokens: 1, tokens: TOKEN, last_refill: start },
                start,
            ).0;
            acquire_step(first, later).1 == Acquire::Wait(TOKEN)
        }),
{
}

/// Every transition keeps the bucket within its capacity.
pub proof fn lemma_transitions_keep_capacity(l: RateLimiter, now: u64, used: u32, limit: u32)
    requires
        wf(l),
    ensures
        wf(after_refill(l, now)),
        wf(acquire_step(l, now).0),
        wf(after_sync(used, limit, now)),
{
    assert((if used >= limit { 0 } else { (limit - used) * TOKEN }) <= limit * TOKEN) by (nonlinear_arith);
    assert(limit * TOKEN <= 0xFFFF_FFFF * 60000) by (nonlinear_arith)
        requires limit <= 0xFFFF_FFFF;
    assert(l.max_tokens * TOKEN <= 0xFFFF_FFFF * 60000) by (nonlinear_arith)
        requires l.max_tokens <= 0xFFFF_FFFF;
}

} // verus!
