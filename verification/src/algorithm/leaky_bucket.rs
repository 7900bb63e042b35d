//! Leaky bucket rate limiting algorithm implementation.

use crate::algorithm::internal::{
    nanos_for_tokens, refill_tokens, sat_mul, saturating_mul, spec_nanos_for_tokens,
    spec_refill_tokens, spec_wait_for_tokens, spec_zero_cost_decision, wait_for_tokens, xorshift,
    zero_cost_decision, SCALE,
};
use crate::algorithm::sealed::Sealed;
use crate::algorithm::token_bucket::{cleanup_draw, fresh_seed, swept};
use crate::algorithm::Algorithm;
use crate::clock::{instant_now, nanos_since};
use crate::limiter::RateLimitDecision;
use crate::store::{KeyedStore, Stamped};
use vstd::prelude::*;

verus! {

/// Maximum capacity to prevent overflow in scaled arithmetic:
/// `u64::MAX / (2 * SCALE)`.
pub const MAX_CAPACITY: u64 = 9_223_372_036_854_775;

/// Maximum leak rate per second to prevent overflow: `u64::MAX / (2 * SCALE)`.
pub const MAX_LEAK_RATE: u64 = 9_223_372_036_854_775;

/// Per-key state of a leaky bucket.
///
/// Requests add tokens to the bucket and tokens leak out at a constant rate;
/// a request that would overflow the bucket is denied. Token counts are
/// scaled by [`SCALE`].
#[derive(Clone, Copy, Debug, PartialEq, Eq)]
pub struct LeakyState {
    /// Current number of tokens in the bucket, scaled. Lower is better: it
    /// stands for requests that have not leaked out yet.
    pub tokens: u64,
    /// Time up to which elapsed time has been leaked.
    pub last_leak_nanos: u64,
    /// Last access time, used for TTL-based eviction.
    pub last_access_nanos: u64,
}

impl LeakyState {
    /// An empty bucket created at `now`.
    pub open spec fn spec_new(now: u64) -> LeakyState {
        LeakyState { tokens: 0, last_leak_nanos: now, last_access_nanos: now }
    }

    /// Creates a new leaky bucket state starting empty.
    pub fn new(now_nanos: u64) -> (res: LeakyState)
        ensures
            res == LeakyState::spec_new(now_nanos),
    {
        LeakyState { tokens: 0, last_leak_nanos: now_nanos, last_access_nanos: now_nanos }
    }

    /// The state after leaking the whole tokens that drained since the last
    /// leak. The clock advances by the shortest interval that pays for them,
    /// so no nanosecond drains twice.
    pub open spec fn leaked(self, rate_scaled: u64, now: u64) -> LeakyState {
        let out = spec_refill_tokens(now.saturating_sub(self.last_leak_nanos), rate_scaled);
        if out == 0 {
            self
        } else {
            LeakyState {
                tokens: self.tokens.saturating_sub(out),
                last_leak_nanos: self.last_leak_nanos.saturating_add(
                    spec_nanos_for_tokens(out, rate_scaled),
                ),
                last_access_nanos: self.last_access_nanos,
            }
        }
    }

    /// Claims the interval that pays for the leaked tokens, then subtracts them.
    pub fn apply_leak(&mut self, rate_scaled: u64, now_nanos: u64)
        ensures
            *final(self) == old(self).leaked(rate_scaled, now_nanos),
    {
        let out = refill_tokens(now_nanos.saturating_sub(self.last_leak_nanos), rate_scaled);
        if out == 0 {
            return ;
        }
        let claimed = nanos_for_tokens(out, rate_scaled);
        self.last_leak_nanos = self.last_leak_nanos.saturating_add(claimed);
        self.tokens = self.tokens.saturating_sub(out);
    }

    /// The state, verdict and remaining capacity (in whole tokens) after a
    /// request of `cost` at `now`: the bucket leaks first, then the cost is
    /// added if it does not overflow the capacity.
    pub open spec fn added(self, capacity: u64, leak_rate_per_second: u64, now: u64, cost: u64) -> (
        LeakyState,
        bool,
        u64,
    ) {
        let touched = LeakyState { last_access_nanos: now, ..self };
        let r = touched.leaked(sat_mul(leak_rate_per_second, SCALE), now);
        let scaled_capacity = sat_mul(capacity, SCALE);
        let new_tokens = r.tokens.saturating_add(sat_mul(cost, SCALE));
        if new_tokens > scaled_capacity {
            (r, false, scaled_capacity.saturating_sub(r.tokens) / SCALE)
        } else {
            (
                LeakyState { tokens: new_tokens, ..r },
                true,
                scaled_capacity.saturating_sub(new_tokens) / SCALE,
            )
        }
    }

    /// Attempts to add `cost` tokens to the bucket (i.e., make a request).
    ///
    /// Returns `(permitted, remaining_capacity)`.
    pub fn try_add(&mut self, capacity: u64, leak_rate_per_second: u64, now_nanos: u64, cost: u64) -> (res: (
        bool,
        u64,
    ))
        ensures
            (*final(self), res.0, res.1) == old(self).added(
                capacity,
                leak_rate_per_second,
                now_nanos,
                cost,
            ),
    {
        self.last_access_nanos = now_nanos;
        let scaled_capacity = saturating_mul(capacity, SCALE);
        let token_cost = saturating_mul(cost, SCALE);
        let rate_scaled = saturating_mul(leak_rate_per_second, SCALE);
        self.apply_leak(rate_scaled, now_nanos);
        let current = self.tokens;
        let new_tokens = current.saturating_add(token_cost);
        if new_tokens > scaled_capacity {
            return (false, scaled_capacity.saturating_sub(current) / SCALE);
        }
        self.tokens = new_tokens;
        (true, scaled_capacity.saturating_sub(new_tokens) / SCALE)
    }
}

impl Stamped for LeakyState {
    open spec fn stamp(&self) -> u64 {
        self.last_access_nanos
    }

    fn last_access(&self) -> (res: u64) {
        self.last_access_nanos
    }
}

/// The abstract state of a [`LeakyBucket`].
pub struct LeakyBucketView {
    /// Maximum tokens a bucket can hold.
    pub capacity: u64,
    /// Tokens leaked per second (steady rate).
    pub leak_rate_per_second: u64,
    /// Idle time after which a key is evicted, in nanoseconds.
    pub idle_ttl: Option<u64>,
    /// State of the random generator that samples cleanup passes.
    pub rng: u64,
    /// The state of each key.
    pub states: Map<Seq<char>, LeakyState>,
}

/// The decision a leaky bucket reports for a request.
pub open spec fn spec_leaky_decision(
    permitted: bool,
    remaining_capacity: u64,
    capacity: u64,
    leak_rate_per_second: u64,
    cost: u64,
) -> RateLimitDecision {
    let level = capacity.saturating_sub(remaining_capacity);
    RateLimitDecision {
        permitted,
        retry_after: if !permitted {
            Some(spec_wait_for_tokens(cost, leak_rate_per_second))
        } else {
            None
        },
        remaining: Some(remaining_capacity),
        limit: capacity,
        reset: if leak_rate_per_second > 0 && level > 0 {
            Some(spec_wait_for_tokens(level, leak_rate_per_second))
        } else {
            Some(0)
        },
    }
}

/// The decision a leaky bucket reports for a request.
pub fn leaky_decision(
    permitted: bool,
    remaining_capacity: u64,
    capacity: u64,
    leak_rate_per_second: u64,
    cost: u64,
) -> (res: RateLimitDecision)
    ensures
        res == spec_leaky_decision(permitted, remaining_capacity, capacity, leak_rate_per_second, cost),
{
    let retry_after = if !permitted {
        Some(wait_for_tokens(cost, leak_rate_per_second))
    } else {
        None
    };
    let current_level = capacity.saturating_sub(remaining_capacity);
    let reset = if leak_rate_per_second > 0 && current_level > 0 {
        Some(wait_for_tokens(current_level, leak_rate_per_second))
    } else {
        Some(0)
    };
    RateLimitDecision {
        permitted,
        retry_after,
        remaining: Some(remaining_capacity),
        limit: capacity,
        reset,
    }
}

/// The view and decision after a leaky-bucket check of `cost` for `key` at `now`.
pub open spec fn leaky_bucket_step(v: LeakyBucketView, key: Seq<char>, cost: u64, now: u64) -> (
    LeakyBucketView,
    RateLimitDecision,
) {
    if cost == 0 {
        (v, spec_zero_cost_decision(v.capacity))
    } else {
        let (rng, sweep) = cleanup_draw(v.idle_ttl, v.rng);
        let states = swept(v.states, v.idle_ttl, sweep, now);
        let current = if states.contains_key(key) {
            states[key]
        } else {
            LeakyState::spec_new(now)
        };
        let (next, permitted, remaining) = current.added(
            v.capacity,
            v.leak_rate_per_second,
            now,
            cost,
        );
        (
            LeakyBucketView { rng, states: states.insert(key, next), ..v },
            spec_leaky_decision(permitted, remaining, v.capacity, v.leak_rate_per_second, cost),
        )
    }
}

/// Leaky bucket rate limiting algorithm.
///
/// The leaky bucket enforces a steady rate by "leaking" tokens at a constant
/// rate. Unlike the token bucket, a key starts empty and requests fill it, so
/// traffic is smoothed rather than allowed to burst.
pub struct LeakyBucket {
    capacity: u64,
    leak_rate_per_second: u64,
    reference_instant: tokio::time::Instant,
    idle_ttl: Option<u64>,
    buckets: KeyedStore<LeakyState>,
    rng: u64,
}

impl View for LeakyBucket {
    type V = LeakyBucketView;

    closed spec fn view(&self) -> LeakyBucketView {
        LeakyBucketView {
            capacity: self.capacity,
            leak_rate_per_second: self.leak_rate_per_second,
            idle_ttl: self.idle_ttl,
            rng: self.rng,
            states: self.buckets.view(),
        }
    }
}

impl LeakyBucket {
    /// Creates a new leaky bucket with the specified capacity and leak rate,
    /// clamped to [`MAX_CAPACITY`] and [`MAX_LEAK_RATE`].
    pub fn new(capacity: u64, leak_rate_per_second: u64) -> (res: Self)
        ensures
            res.wf(),
            res@.capacity == (if capacity < MAX_CAPACITY { capacity } else { MAX_CAPACITY }),
            res@.leak_rate_per_second == (if leak_rate_per_second < MAX_LEAK_RATE {
                leak_rate_per_second
            } else {
                MAX_LEAK_RATE
            }),
            res@.idle_ttl == None::<u64>,
            res@.states == Map::<Seq<char>, LeakyState>::empty(),
    {
        let safe_capacity = if capacity < MAX_CAPACITY {
            capacity
        } else {
            MAX_CAPACITY
        };
        let safe_rate = if leak_rate_per_second < MAX_LEAK_RATE {
            leak_rate_per_second
        } else {
            MAX_LEAK_RATE
        };
        LeakyBucket {
            capacity: safe_capacity,
            leak_rate_per_second: safe_rate,
            reference_instant: instant_now(),
            idle_ttl: None,
            buckets: KeyedStore::new(1),
            rng: fresh_seed(),
        }
    }

    /// Creates a new leaky bucket whose keys are evicted once idle for
    /// `idle_ttl_nanos` nanoseconds.
    pub fn with_ttl(capacity: u64, leak_rate_per_second: u64, idle_ttl_nanos: u64) -> (res: Self)
        ensures
            res.wf(),
            res@.capacity == (if capacity < MAX_CAPACITY { capacity } else { MAX_CAPACITY }),
            res@.leak_rate_per_second == (if leak_rate_per_second < MAX_LEAK_RATE {
                leak_rate_per_second
            } else {
                MAX_LEAK_RATE
            }),
            res@.idle_ttl == Some(idle_ttl_nanos),
            res@.states == Map::<Seq<char>, LeakyState>::empty(),
    {
        let mut bucket = Self::new(capacity, leak_rate_per_second);
        bucket.idle_ttl = Some(idle_ttl_nanos);
        bucket
    }

    /// The number of keys that have state.
    pub fn len(&self) -> (res: usize)
        requires
            self.wf(),
        ensures
            res == self@.states.dom().len(),
            self@.states.dom().finite(),
    {
        self.buckets.len()
    }

    /// The state held for `key`, if any.
    pub fn state_of(&self, key: &str) -> (res: Option<LeakyState>)
        requires
            self.wf(),
        ensures
            res == (if self@.states.contains_key(key@) {
                Some(self@.states[key@])
            } else {
                None::<LeakyState>
            }),
    {
        self.buckets.get(key)
    }

    /// Removes keys idle for at least the configured TTL; does nothing without one.
    fn cleanup_idle(&mut self, now_nanos: u64)
        requires
            old(self).wf(),
        ensures
            final(self).wf(),
            final(self)@ == (LeakyBucketView {
                states: swept(old(self)@.states, old(self)@.idle_ttl, true, now_nanos),
                ..old(self)@
            }),
    {
        if let Some(ttl) = self.idle_ttl {
            self.buckets.evict_idle(now_nanos, ttl);
        }
    }
}

impl Sealed for LeakyBucket {}

impl Algorithm for LeakyBucket {
    closed spec fn wf(&self) -> bool {
        &&& self.buckets.wf()
        &&& self.capacity <= MAX_CAPACITY
        &&& self.leak_rate_per_second <= MAX_LEAK_RATE
    }

    open spec fn step(v: LeakyBucketView, key: Seq<char>, cost: u64, now: u64) -> (
        LeakyBucketView,
        RateLimitDecision,
    ) {
        leaky_bucket_step(v, key, cost, now)
    }

    fn now_nanos(&self) -> u64 {
        nanos_since(&self.reference_instant)
    }

    fn check_at(&mut self, key: &str, cost: u64, now: u64) -> (res: RateLimitDecision) {
        if cost == 0 {
            return zero_cost_decision(self.capacity);
        }
        if self.idle_ttl.is_some() {
            self.rng = xorshift(self.rng);
            if self.rng % 100 == 0 {
                self.cleanup_idle(now);
            }
        }
        let mut state = match self.buckets.get(key) {
            Some(s) => s,
            None => LeakyState::new(now),
        };
        let (permitted, remaining_capacity) = state.try_add(
            self.capacity,
            self.leak_rate_per_second,
            now,
            cost,
        );
        self.buckets.set(key, state);
        leaky_decision(permitted, remaining_capacity, self.capacity, self.leak_rate_per_second, cost)
    }
}

} // verus!
