//! Per-principal token-bucket rate limiter guarding the heartbeat endpoint.
//!
//! Each principal owns an independent bucket of permits: a request consumes
//! one permit, and the bucket refills one permit per fixed period up to a
//! small fixed capacity, so one abusive principal cannot starve another's
//! quota.  Time arrives as an explicit millisecond instant from the caller's
//! monotonic clock, which makes every decision a function of its arguments.

use vstd::prelude::*;
use vstd::pervasive::VecAdditionalExecFns;

verus! {

/// Permits a fresh principal may burst, matching a quota of two requests
/// per second.
pub const DEFAULT_BURST_CAPACITY: u64 = 2;

/// Milliseconds between two replenished permits, matching a quota of two
/// requests per second.
pub const DEFAULT_REFILL_PERIOD_MS: u64 = 500;

/// One principal's bucket: the permits it still holds and when it last
/// gained (or was created with) a permit.
#[derive(Clone, Copy, Debug, PartialEq, Eq, Structural)]
pub struct TokenBucket {
    pub tokens: u64,
    pub last_refill: u64,
}

/// Mathematical view of a rate limiter.
#[verifier::ext_equal]
pub struct LimiterView {
    pub capacity: u64,
    pub period_ms: u64,
    pub buckets: Seq<(u64, TokenBucket)>,
}

/// A bucket after catching up with the clock: one permit per elapsed
/// period, capped at the capacity.  A bucket that reaches the cap restarts
/// its refill window at `now`; a partial refill advances the window only by
/// the periods actually credited.
pub open spec fn spec_refill(b: TokenBucket, cap: u64, period: u64, now: u64) -> TokenBucket
    recommends
        period > 0,
        b.last_refill <= now,
{
    let steps = (now - b.last_refill) / (period as int);
    if b.tokens + steps >= cap {
        TokenBucket { tokens: cap, last_refill: now }
    } else {
        TokenBucket {
            tokens: (b.tokens + steps) as u64,
            last_refill: (b.last_refill + steps * period) as u64,
        }
    }
}

/// One request against a bucket: refill, then consume a permit if one is
/// available.  The request is allowed exactly when a permit was available.
pub open spec fn spec_bucket_check(b: TokenBucket, cap: u64, period: u64, now: u64) -> (
    TokenBucket,
    bool,
) {
    let r = spec_refill(b, cap, period, now);
    if r.tokens > 0 {
        (TokenBucket { tokens: (r.tokens - 1) as u64, last_refill: r.last_refill }, true)
    } else {
        (r, false)
    }
}

impl LimiterView {
    /// Positive quota parameters, one bucket per principal, and no bucket
    /// over the capacity.
    pub open spec fn wf(self) -> bool {
        &&& self.capacity > 0
        &&& self.period_ms > 0
        &&& forall|i: int, j: int|
            0 <= i < self.buckets.len() && 0 <= j < self.buckets.len() && i != j ==> (
            #[trigger] self.buckets[i]).0 != (#[trigger] self.buckets[j]).0
        &&& forall|i: int|
            0 <= i < self.buckets.len() ==> (#[trigger] self.buckets[i]).1.tokens <= self.capacity
    }

    /// Every refill window started at or before the given instant.
    pub open spec fn stamps_le(self, now: u64) -> bool {
        forall|i: int|
            0 <= i < self.buckets.len() ==> (#[trigger] self.buckets[i]).1.last_refill <= now
    }

    /// A bucket exists for this principal.
    pub open spec fn has_key(self, key: u64) -> bool {
        exists|i: int| 0 <= i < self.buckets.len() && self.buckets[i].0 == key
    }

    /// The position of this principal's bucket.
    pub open spec fn key_index(self, key: u64) -> int {
        choose|i: int| 0 <= i < self.buckets.len() && self.buckets[i].0 == key
    }

    /// This principal's bucket, if one exists.
    pub open spec fn bucket_for(self, key: u64) -> Option<TokenBucket> {
        if self.has_key(key) {
            Some(self.buckets[self.key_index(key)].1)
        } else {
            None
        }
    }

    /// The bucket a request at `now` starts from: the stored one, or a full
    /// bucket born at `now` for a principal seen for the first time.
    pub open spec fn bucket_at(self, key: u64, now: u64) -> TokenBucket {
        match self.bucket_for(key) {
            Some(b) => b,
            None => TokenBucket { tokens: self.capacity, last_refill: now },
        }
    }
}

/// Keyed token-bucket rate limiter.
#[derive(Debug)]
pub struct RateLimiter {
    capacity: u64,
    period_ms: u64,
    buckets: Vec<(u64, TokenBucket)>,
}

impl View for RateLimiter {
    type V = LimiterView;

    closed spec fn view(&self) -> LimiterView {
        LimiterView { capacity: self.capacity, period_ms: self.period_ms, buckets: self.buckets@ }
    }
}

impl RateLimiter {
    /// A limiter granting a burst of `capacity` permits per principal and
    /// one new permit every `period_ms` milliseconds.
    pub fn new(capacity: u64, period_ms: u64) -> (r: RateLimiter)
        requires
            capacity > 0,
            period_ms > 0,
        ensures
            r@.capacity == capacity,
            r@.period_ms == period_ms,
            r@.buckets.len() == 0,
            r@.wf(),
    {
        RateLimiter { capacity, period_ms, buckets: Vec::new() }
    }

    /// Spend one permit of this principal at millisecond instant `now_ms`,
    /// if one is available after refilling; says whether the request is
    /// allowed.  Buckets of other principals are untouched, and a principal
    /// without a bucket starts from a full one.
    #[verifier::loop_isolation(false)]
    pub fn check_key(&mut self, key: u64, now_ms: u64) -> (allowed: bool)
        requires
            old(self)@.wf(),
            old(self)@.stamps_le(now_ms),
        ensures
            final(self)@.capacity == old(self)@.capacity,
            final(self)@.period_ms == old(self)@.period_ms,
            final(self)@.wf(),
            final(self)@.stamps_le(now_ms),
            allowed == spec_bucket_check(
                old(self)@.bucket_at(key, now_ms),
                old(self)@.capacity,
                old(self)@.period_ms,
                now_ms,
            ).1,
            final(self)@.bucket_for(key) == Some(
                spec_bucket_check(
                    old(self)@.bucket_at(key, now_ms),
                    old(self)@.capacity,
                    old(self)@.period_ms,
                    now_ms,
                ).0,
            ),
            forall|k2: u64|
                k2 != key ==> #[trigger] final(self)@.bucket_for(k2) == old(self)@.bucket_for(k2),
    {
        let ghost b0 = self@.buckets;
        let cap = self.capacity;
        let period = self.period_ms;
        let n = self.buckets.len();
        let mut i: usize = 0;
        while i < n
            invariant
                i <= n,
                self@ == old(self)@,
                n == self@.buckets.len(),
                forall|k: int| 0 <= k < i ==> (#[trigger] b0[k]).0 != key,
            decreases n - i,
        {
            if self.buckets[i].0 == key {
                proof {
                    assert(b0[i as int].0 == key);
                    assert(self@.has_key(key));
                    let j = self@.key_index(key);
                    assert(0 <= j < b0.len() && b0[j].0 == key);
                    assert(j == i);
                }
                let b = self.buckets[i].1;
                proof {
                    assert(b0[i as int].1.last_refill <= now_ms);
                    assert(b0[i as int].1.tokens <= cap);
                }
                let elapsed = now_ms - b.last_refill;
                let steps = elapsed / period;
                let refilled: TokenBucket = if steps >= cap - b.tokens {
                    TokenBucket { tokens: cap, last_refill: now_ms }
                } else {
                    proof {
                        assert(steps * period <= elapsed) by (nonlinear_arith)
                            requires
                                period > 0,
                                elapsed >= 0,
                                steps == (elapsed as int) / (period as int),
                        ;
                    }
                    TokenBucket { tokens: b.tokens + steps, last_refill: b.last_refill + steps * period }
                };
                proof {
                    assert(refilled == spec_refill(b, cap, period, now_ms));
                }
                let allowed = refilled.tokens > 0;
                let updated = if allowed {
                    TokenBucket { tokens: refilled.tokens - 1, last_refill: refilled.last_refill }
                } else {
                    refilled
                };
                self.buckets.set(i, (key, updated));
                proof {
                    assert(self@.buckets =~= b0.update(i as int, (key, updated)));
                    assert(self@.buckets[i as int].0 == key);
                    assert(self@.has_key(key));
                    let j2 = self@.key_index(key);
                    assert(0 <= j2 < self@.buckets.len() && self@.buckets[j2].0 == key);
                    assert(j2 == i);
                    assert forall|k2: u64| k2 != key implies #[trigger] self@.bucket_for(k2)
                        == old(self)@.bucket_for(k2) by {
                        lemma_bucket_for_update_other(old(self)@, self@, i as int, k2);
                    }
                }
                return allowed;
            }
            i += 1;
        }
        let fresh = TokenBucket { tokens: cap - 1, last_refill: now_ms };
        self.buckets.push((key, fresh));
        proof {
            assert(!old(self)@.has_key(key));
            assert(self@.buckets =~= b0.push((key, fresh)));
            assert(self@.buckets[n as int].0 == key);
            assert(self@.has_key(key));
            let j = self@.key_index(key);
            assert(0 <= j < self@.buckets.len() && self@.buckets[j].0 == key);
            assert forall|k: int| 0 <= k < n implies (#[trigger] self@.buckets[k]).0 != key by {
                assert(self@.buckets[k] == b0[k]);
            }
            assert(j == n);
            let start = TokenBucket { tokens: cap, last_refill: now_ms };
            assert(spec_refill(start, cap, period, now_ms) == start) by {
                assert((now_ms - now_ms) / (period as int) == 0);
            }
            assert forall|k2: u64| k2 != key implies #[trigger] self@.bucket_for(k2)
                == old(self)@.bucket_for(k2) by {
                lemma_bucket_for_push_other(old(self)@, self@, k2);
            }
        }
        true
    }
}

/// A convenient limiter with the default quota of two requests per second.
pub fn get_rate_limiter() -> (r: RateLimiter)
    ensures
        r@.capacity == DEFAULT_BURST_CAPACITY,
        r@.period_ms == DEFAULT_REFILL_PERIOD_MS,
        r@.buckets.len() == 0,
        r@.wf(),
{
    RateLimiter::new(DEFAULT_BURST_CAPACITY, DEFAULT_REFILL_PERIOD_MS)
}

/// Updating one principal's bucket in place leaves every other principal's
/// bucket as it was.
proof fn lemma_bucket_for_update_other(v0: LimiterView, v1: LimiterView, i: int, k2: u64)
    requires
        v0.wf(),
        0 <= i < v0.buckets.len(),
        v1.buckets.len() == v0.buckets.len(),
        v1.buckets[i].0 == v0.buckets[i].0,
        forall|k: int| 0 <= k < v0.buckets.len() && k != i ==> v1.buckets[k] == v0.buckets[k],
        k2 != v0.buckets[i].0,
    ensures
        v1.bucket_for(k2) == v0.bucket_for(k2),
{
    if v0.has_key(k2) {
        let j = v0.key_index(k2);
        assert(0 <= j < v0.buckets.len() && v0.buckets[j].0 == k2);
        assert(j != i);
        assert(v1.buckets[j] == v0.buckets[j]);
        assert(v1.has_key(k2));
        let j1 = v1.key_index(k2);
        assert(0 <= j1 < v1.buckets.len() && v1.buckets[j1].0 == k2);
        assert(j1 != i);
        assert(v1.buckets[j1] == v0.buckets[j1]);
        assert(j1 == j) by {
            if j1 != j {
                assert(v0.buckets[j1].0 == k2 && v0.buckets[j].0 == k2);
            }
        }
    } else {
        if v1.has_key(k2) {
            let j1 = v1.key_index(k2);
            assert(0 <= j1 < v1.buckets.len() && v1.buckets[j1].0 == k2);
            assert(j1 != i);
            assert(v0.buckets[j1].0 == k2);
            assert(false);
        }
    }
}

/// Appending a bucket for a new principal leaves every other principal's
/// bucket as it was.
proof fn lemma_bucket_for_push_other(v0: LimiterView, v1: LimiterView, k2: u64)
    requires
        v0.wf(),
        v1.buckets.len() == v0.buckets.len() + 1,
        forall|k: int| 0 <= k < v0.buckets.len() ==> v1.buckets[k] == v0.buckets[k],
        k2 != v1.buckets[v0.buckets.len() as int].0,
    ensures
        v1.bucket_for(k2) == v0.bucket_for(k2),
{
    let n = v0.buckets.len() as int;
    if v0.has_key(k2) {
        let j = v0.key_index(k2);
        assert(0 <= j < n && v0.buckets[j].0 == k2);
        assert(v1.buckets[j] == v0.buckets[j]);
        assert(v1.has_key(k2));
        let j1 = v1.key_index(k2);
        assert(0 <= j1 < v1.buckets.len() && v1.buckets[j1].0 == k2);
        assert(j1 != n);
        assert(v1.buckets[j1] == v0.buckets[j1]);
        assert(v0.buckets[j1].0 == k2);
        assert(j1 == j) by {
            if j1 != j {
                assert(v0.buckets[j1].0 == k2 && v0.buckets[j].0 == k2);
            }
        }
    } else {
        if v1.has_key(k2) {
            let j1 = v1.key_index(k2);
            assert(0 <= j1 < v1.buckets.len() && v1.buckets[j1].0 == k2);
            assert(j1 != n);
            assert(v0.buckets[j1].0 == k2);
            assert(false);
        }
    }
}

/// The bucket and the per-request outcomes after a sequence of requests by
/// one principal, each made at the given instants in order.
pub open spec fn spec_checks_from(b: TokenBucket, cap: u64, period: u64, times: Seq<u64>) -> (
    TokenBucket,
    Seq<bool>,
)
    decreases times.len(),
{
    if times.len() == 0 {
        (b, Seq::empty())
    } else {
        let prev = spec_checks_from(b, cap, period, times.drop_last());
        let step = spec_bucket_check(prev.0, cap, period, times.last());
        (step.0, prev.1.push(step.1))
    }
}

/// Quota law: out of any ordered sequence of requests a single principal
/// makes within one refill window, exactly the first `cap` (the configured
/// burst capacity) are allowed and every later one is rejected.  Requests
/// by other principals cannot change this, since `check_key` leaves every
/// other bucket untouched.
pub proof fn lemma_rate_quota_window(cap: u64, period: u64, t0: u64, times: Seq<u64>)
    requires
        cap > 0,
        period > 0,
        forall|i: int| 0 <= i < times.len() ==> t0 <= #[trigger] times[i] < t0 + period,
        forall|i: int, j: int| 0 <= i <= j < times.len() ==> #[trigger] times[i] <= #[trigger] times[j],
    ensures
        ({
            let start = TokenBucket { tokens: cap, last_refill: t0 };
            let r = spec_checks_from(start, cap, period, times);
            &&& r.1.len() == times.len()
            &&& forall|i: int| 0 <= i < times.len() ==> (r.1[i] <==> i < cap)
            &&& times.len() == 0 ==> r.0 == start
            &&& times.len() > 0 ==> r.0.last_refill == times[0] && r.0.tokens == (
                if times.len() >= cap {
                    0
                } else {
                    (cap - times.len()) as u64
                }
            )
        }),
    decreases times.len(),
{
    let start = TokenBucket { tokens: cap, last_refill: t0 };
    if times.len() == 0 {
    } else {
        let n = times.len() as int;
        let prefix = times.drop_last();
        let t = times.last();
        assert(prefix.len() == n - 1);
        assert forall|i: int| 0 <= i < prefix.len() implies t0 <= #[trigger] prefix[i] < t0
            + period by {
            assert(prefix[i] == times[i]);
        }
        assert forall|i: int, j: int| 0 <= i <= j < prefix.len() implies #[trigger] prefix[i]
            <= #[trigger] prefix[j] by {
            assert(prefix[i] == times[i] && prefix[j] == times[j]);
        }
        lemma_rate_quota_window(cap, period, t0, prefix);
        let prev = spec_checks_from(start, cap, period, prefix);
        let step = spec_bucket_check(prev.0, cap, period, t);
        if n == 1 {
            assert(prev.0 == start);
            assert(t0 <= t < t0 + period);
            assert((t - t0) / (period as int) == 0) by (nonlinear_arith)
                requires
                    period > 0,
                    0 <= t - t0 < period,
            ;
            assert(spec_refill(start, cap, period, t) == (TokenBucket {
                tokens: cap,
                last_refill: t,
            }));
            assert(step.1);
            assert(step.0.tokens == cap - 1 && step.0.last_refill == t);
            assert(times[0] == t);
        } else {
            let tok = prev.0.tokens;
            assert(prev.0.last_refill == prefix[0] == times[0]);
            assert(tok == if n - 1 >= cap { 0 } else { (cap - (n - 1)) as u64 });
            assert(tok < cap);
            assert(times[0] <= t) by {
                assert(times[0] <= times[n - 1]);
            }
            assert(t < t0 + period && t0 <= times[0]);
            assert((t - times[0]) / (period as int) == 0) by (nonlinear_arith)
                requires
                    period > 0,
                    0 <= t - times[0] < period,
            ;
            assert(spec_refill(prev.0, cap, period, t) == prev.0);
            assert(step.1 <==> tok > 0);
            assert(step.1 <==> n - 1 < cap);
            let r = spec_checks_from(start, cap, period, times);
            assert(r.1 == prev.1.push(step.1));
            assert forall|i: int| 0 <= i < n implies (r.1[i] <==> i < cap) by {
                if i < n - 1 {
                    assert(r.1[i] == prev.1[i]);
                }
            }
        }
    }
}

} // verus!
