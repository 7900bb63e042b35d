//! Token bucket rate limiting algorithm implementation.

use crate::algorithm::internal::{
    min_u64, mix_seed, nanos_for_tokens, refill_tokens, sat_mul, saturating_mul, spec_cleanup_due,
    spec_mix_seed, spec_nanos_for_tokens, spec_refill_tokens, spec_token_decision, spec_xorshift,
    spec_zero_cost_decision, token_decision, xorshift, zero_cost_decision, SCALE,
};
use crate::algorithm::sealed::Sealed;
use crate::algorithm::Algorithm;
use crate::clock::{instant_now, nanos_since, wall_clock_nanos};
use crate::limiter::RateLimitDecision;
use crate::store::{route, shard_of, without_idle, KeyedStore, Stamped};
use vstd::prelude::*;

verus! {

/// Maximum burst capacity to prevent overflow in scaled arithmetic.
/// This is `u64::MAX / (2 * SCALE)` to leave room for intermediate calculations.
pub const MAX_BURST: u64 = 9_223_372_036_854_775;

/// Maximum refill rate per second to prevent overflow: `u64::MAX / (2 * SCALE)`.
pub const MAX_RATE_PER_SEC: u64 = 9_223_372_036_854_775;

/// Number of shards for the per-key maps.
pub const NUM_SHARDS: usize = 256;

/// Per-key state of a token bucket.
///
/// Token counts are scaled by [`SCALE`] for sub-token precision; times are
/// nanoseconds since the bucket was created.
#[derive(Clone, Copy, Debug, PartialEq, Eq)]
pub struct TokenState {
    /// Current number of tokens available, scaled.
    pub tokens: u64,
    /// Time up to which elapsed time has been credited as tokens.
    pub last_refill_nanos: u64,
    /// Last access time, used for TTL-based eviction.
    pub last_access_nanos: u64,
}

impl TokenState {
    /// A full bucket created at `now`.
    pub open spec fn spec_new(capacity: u64, now: u64) -> TokenState {
        TokenState { tokens: sat_mul(capacity, SCALE), last_refill_nanos: now, last_access_nanos: now }
    }

    /// Creates a new token state with the bucket at full capacity.
    pub fn new(capacity: u64, now_nanos: u64) -> (res: TokenState)
        ensures
            res == TokenState::spec_new(capacity, now_nanos),
    {
        TokenState {
            tokens: saturating_mul(capacity, SCALE),
            last_refill_nanos: now_nanos,
            last_access_nanos: now_nanos,
        }
    }

    /// The state after crediting the whole tokens accrued since the last
    /// refill. The clock advances by the shortest interval that pays for
    /// those tokens, so no nanosecond is credited twice, and time not yet
    /// paid out stays on the clock. A bucket at or over capacity is not
    /// topped up, and the credit never fills it past capacity.
    pub open spec fn refilled(self, capacity_scaled: u64, rate_scaled: u64, now: u64) -> TokenState {
        let added = spec_refill_tokens(now.saturating_sub(self.last_refill_nanos), rate_scaled);
        if added == 0 {
            self
        } else {
            TokenState {
                tokens: if self.tokens >= capacity_scaled {
                    self.tokens
                } else {
                    min_u64(self.tokens.saturating_add(added), capacity_scaled)
                },
                last_refill_nanos: self.last_refill_nanos.saturating_add(
                    spec_nanos_for_tokens(added, rate_scaled),
                ),
                last_access_nanos: self.last_access_nanos,
            }
        }
    }

    /// Claims the interval that pays for the accrued tokens, then credits them.
    pub fn apply_refill(&mut self, capacity_scaled: u64, rate_scaled: u64, now_nanos: u64)
        ensures
            *final(self) == old(self).refilled(capacity_scaled, rate_scaled, now_nanos),
    {
        let added = refill_tokens(now_nanos.saturating_sub(self.last_refill_nanos), rate_scaled);
        if added == 0 {
            return ;
        }
        let claimed = nanos_for_tokens(added, rate_scaled);
        self.last_refill_nanos = self.last_refill_nanos.saturating_add(claimed);
        if self.tokens < capacity_scaled {
            let sum = self.tokens.saturating_add(added);
            self.tokens = if sum < capacity_scaled {
                sum
            } else {
                capacity_scaled
            };
        }
    }

    /// The state, verdict and remaining whole tokens after a request of
    /// `cost` tokens at `now`: the bucket is refilled first, then the cost is
    /// taken if the bucket holds it.
    pub open spec fn consumed(self, capacity: u64, refill_rate_per_second: u64, now: u64, cost: u64) -> (
        TokenState,
        bool,
        u64,
    ) {
        let touched = TokenState { last_access_nanos: now, ..self };
        let r = touched.refilled(
            sat_mul(capacity, SCALE),
            sat_mul(refill_rate_per_second, SCALE),
            now,
        );
        let token_cost = sat_mul(cost, SCALE);
        if r.tokens < token_cost {
            (r, false, r.tokens / SCALE)
        } else {
            (
                TokenState { tokens: (r.tokens - token_cost) as u64, ..r },
                true,
                ((r.tokens - token_cost) / (SCALE as int)) as u64,
            )
        }
    }

    /// Attempts to consume `cost` tokens at `now`, refilling first.
    ///
    /// Returns `(permitted, remaining_tokens)`.
    pub fn try_consume(
        &mut self,
        capacity: u64,
        refill_rate_per_second: u64,
        now_nanos: u64,
        cost: u64,
    ) -> (res: (bool, u64))
        ensures
            (*final(self), res.0, res.1) == old(self).consumed(
                capacity,
                refill_rate_per_second,
                now_nanos,
                cost,
            ),
    {
        self.last_access_nanos = now_nanos;
        let scaled_capacity = saturating_mul(capacity, SCALE);
        let token_cost = saturating_mul(cost, SCALE);
        let rate_scaled = saturating_mul(refill_rate_per_second, SCALE);
        self.apply_refill(scaled_capacity, rate_scaled, now_nanos);
        let current = self.tokens;
        if current < token_cost {
            return (false, current / SCALE);
        }
        self.tokens = current - token_cost;
        (true, (current - token_cost) / SCALE)
    }
}

impl Stamped for TokenState {
    open spec fn stamp(&self) -> u64 {
        self.last_access_nanos
    }

    fn last_access(&self) -> (res: u64) {
        self.last_access_nanos
    }
}

/// The abstract state of a [`TokenBucket`].
pub struct TokenBucketView {
    /// Maximum tokens a bucket can hold (burst size).
    pub capacity: u64,
    /// Tokens added per second.
    pub refill_rate_per_second: u64,
    /// Idle time after which a key is evicted, in nanoseconds.
    pub idle_ttl: Option<u64>,
    /// State of the random generator that samples cleanup passes.
    pub rng: u64,
    /// The state of each key.
    pub states: Map<Seq<char>, TokenState>,
}

/// The random state after a check, and whether that check sweeps idle keys.
/// The generator is drawn from only when a TTL is configured.
pub open spec fn cleanup_draw(idle_ttl: Option<u64>, rng: u64) -> (u64, bool) {
    match idle_ttl {
        Some(_) => (spec_xorshift(rng), spec_cleanup_due(spec_xorshift(rng))),
        None => (rng, false),
    }
}

/// The per-key states after an optional sweep of idle keys.
pub open spec fn swept<T: Stamped>(states: Map<Seq<char>, T>, idle_ttl: Option<u64>, sweep: bool, now: u64) -> Map<
    Seq<char>,
    T,
> {
    match idle_ttl {
        Some(ttl) => if sweep {
            without_idle(states, now, ttl)
        } else {
            states
        },
        None => states,
    }
}

/// The view and decision after a token-bucket check of `cost` for `key` at `now`.
pub open spec fn token_bucket_step(v: TokenBucketView, key: Seq<char>, cost: u64, now: u64) -> (
    TokenBucketView,
    RateLimitDecision,
) {
    if cost == 0 {
        (v, spec_zero_cost_decision(v.capacity))
    } else {
        let (rng, sweep) = cleanup_draw(v.idle_ttl, v.rng);
        let states = swept(v.states, v.idle_ttl, sweep, now);
        let current = if states.contains_key(key) {
            states[key]
        } else {
            TokenState::spec_new(v.capacity, now)
        };
        let (next, permitted, remaining) = current.consumed(
            v.capacity,
            v.refill_rate_per_second,
            now,
            cost,
        );
        (
            TokenBucketView { rng, states: states.insert(key, next), ..v },
            spec_token_decision(permitted, remaining, v.capacity, v.refill_rate_per_second, cost),
        )
    }
}

/// Token bucket rate limiting algorithm.
///
/// The token bucket algorithm maintains a bucket of tokens per key that
/// refills at a constant rate. Each request consumes tokens; when the bucket
/// holds too few, requests are denied.
///
/// Per-key state lives in 256 shards of `flurry` maps. Keys are created on
/// first use at full capacity; with a TTL, keys idle for at least the TTL are
/// removed during cleanup passes sampled on about 1% of checks.
pub struct TokenBucket {
    capacity: u64,
    refill_rate_per_second: u64,
    reference_instant: tokio::time::Instant,
    idle_ttl: Option<u64>,
    shards: KeyedStore<TokenState>,
    rng: u64,
}

impl View for TokenBucket {
    type V = TokenBucketView;

    closed spec fn view(&self) -> TokenBucketView {
        TokenBucketView {
            capacity: self.capacity,
            refill_rate_per_second: self.refill_rate_per_second,
            idle_ttl: self.idle_ttl,
            rng: self.rng,
            states: self.shards.view(),
        }
    }
}

/// A fresh random state: the wall clock's reading, mixed.
pub(crate) fn fresh_seed() -> (res: u64)
    ensures
        exists|raw: u64| res == spec_mix_seed(raw),
{
    let raw = match wall_clock_nanos() {
        Some(n) => n,
        None => 0x9e37_79b9_7f4a_7c15,
    };
    let res = mix_seed(raw);
    assert(res == spec_mix_seed(raw));
    res
}

impl TokenBucket {
    /// Gets the shard index for a given key: the FNV-1a hash of its bytes,
    /// masked to the shard count.
    pub fn get_shard_index(key: &str) -> (res: usize)
        ensures
            res == route(key@, NUM_SHARDS as nat),
            res < NUM_SHARDS,
    {
        shard_of(key, NUM_SHARDS)
    }

    /// Creates a new token bucket with the specified capacity and refill rate.
    ///
    /// Values exceeding [`MAX_BURST`] and [`MAX_RATE_PER_SEC`] are clamped to
    /// prevent arithmetic overflow. Idle keys are never evicted.
    pub fn new(capacity: u64, refill_rate_per_second: u64) -> (res: Self)
        ensures
            res.wf(),
            res@.capacity == min_u64(capacity, MAX_BURST),
            res@.refill_rate_per_second == min_u64(refill_rate_per_second, MAX_RATE_PER_SEC),
            res@.idle_ttl == None::<u64>,
            res@.states == Map::<Seq<char>, TokenState>::empty(),
    {
        let safe_capacity = if capacity < MAX_BURST {
            capacity
        } else {
            MAX_BURST
        };
        let safe_rate = if refill_rate_per_second < MAX_RATE_PER_SEC {
            refill_rate_per_second
        } else {
            MAX_RATE_PER_SEC
        };
        TokenBucket {
            capacity: safe_capacity,
            refill_rate_per_second: safe_rate,
            reference_instant: instant_now(),
            idle_ttl: None,
            shards: KeyedStore::new(NUM_SHARDS),
            rng: fresh_seed(),
        }
    }

    /// Creates a new token bucket; the shard count is fixed, so
    /// `_num_shards` is ignored and this is [`TokenBucket::new`].
    /// Deprecated: use [`TokenBucket::new`].
    pub fn with_shard_count(capacity: u64, refill_rate_per_second: u64, _num_shards: usize) -> (res: Self)
        ensures
            res.wf(),
            res@.capacity == min_u64(capacity, MAX_BURST),
            res@.refill_rate_per_second == min_u64(refill_rate_per_second, MAX_RATE_PER_SEC),
            res@.idle_ttl == None::<u64>,
            res@.states == Map::<Seq<char>, TokenState>::empty(),
    {
        Self::new(capacity, refill_rate_per_second)
    }

    /// Creates a new token bucket whose keys are evicted once idle for
    /// `idle_ttl_nanos` nanoseconds.
    pub fn with_ttl(capacity: u64, refill_rate_per_second: u64, idle_ttl_nanos: u64) -> (res: Self)
        ensures
            res.wf(),
            res@.capacity == min_u64(capacity, MAX_BURST),
            res@.refill_rate_per_second == min_u64(refill_rate_per_second, MAX_RATE_PER_SEC),
            res@.idle_ttl == Some(idle_ttl_nanos),
            res@.states == Map::<Seq<char>, TokenState>::empty(),
    {
        let mut bucket = Self::new(capacity, refill_rate_per_second);
        bucket.idle_ttl = Some(idle_ttl_nanos);
        bucket
    }

    /// Creates a new token bucket with TTL eviction; `_num_shards` is ignored
    /// and this is [`TokenBucket::with_ttl`].
    /// Deprecated: use [`TokenBucket::with_ttl`].
    pub fn with_ttl_and_shard_count(
        capacity: u64,
        refill_rate_per_second: u64,
        idle_ttl_nanos: u64,
        _num_shards: usize,
    ) -> (res: Self)
        ensures
            res.wf(),
            res@.capacity == min_u64(capacity, MAX_BURST),
            res@.refill_rate_per_second == min_u64(refill_rate_per_second, MAX_RATE_PER_SEC),
            res@.idle_ttl == Some(idle_ttl_nanos),
            res@.states == Map::<Seq<char>, TokenState>::empty(),
    {
        Self::with_ttl(capacity, refill_rate_per_second, idle_ttl_nanos)
    }

    /// The capacity after clamping.
    pub fn capacity(&self) -> (res: u64)
        ensures
            res == self@.capacity,
    {
        self.capacity
    }

    /// The refill rate after clamping.
    pub fn refill_rate_per_second(&self) -> (res: u64)
        ensures
            res == self@.refill_rate_per_second,
    {
        self.refill_rate_per_second
    }

    /// The state held for `key`, if any.
    pub fn state_of(&self, key: &str) -> (res: Option<TokenState>)
        requires
            self.wf(),
        ensures
            res == (if self@.states.contains_key(key@) {
                Some(self@.states[key@])
            } else {
                None::<TokenState>
            }),
    {
        self.shards.get(key)
    }

    /// The number of keys that have state.
    pub fn len(&self) -> (res: usize)
        requires
            self.wf(),
        ensures
            res == self@.states.dom().len(),
            self@.states.dom().finite(),
    {
        self.shards.len()
    }

    /// Removes keys idle for at least the configured TTL; does nothing without one.
    fn cleanup_idle(&mut self, now_nanos: u64)
        requires
            old(self).wf(),
        ensures
            final(self).wf(),
            final(self)@ == (TokenBucketView {
                states: swept(old(self)@.states, old(self)@.idle_ttl, true, now_nanos),
                ..old(self)@
            }),
    {
        if let Some(ttl) = self.idle_ttl {
            self.shards.evict_idle(now_nanos, ttl);
        }
    }
}

impl Sealed for TokenBucket {}

impl Algorithm for TokenBucket {
    closed spec fn wf(&self) -> bool {
        &&& self.shards.wf()
        &&& self.shards.shard_count() == NUM_SHARDS
        &&& self.capacity <= MAX_BURST
        &&& self.refill_rate_per_second <= MAX_RATE_PER_SEC
    }

    open spec fn step(v: TokenBucketView, key: Seq<char>, cost: u64, now: u64) -> (
        TokenBucketView,
        RateLimitDecision,
    ) {
        token_bucket_step(v, key, cost, now)
    }

    fn now_nanos(&self) -> u64 {
        nanos_since(&self.reference_instant)
    }

    fn check_at(&mut self, key: &str, cost: u64, now: u64) -> (res: RateLimitDecision) {
        if cost == 0 {
            return zero_cost_decision(self.capacity);
        }
        if self.idle_ttl.is_some() {
            self.rng = xorshift(self.rng);
            if self.rng % 100 == 0 {
                self.cleanup_idle(now);
            }
        }
        let mut state = match self.shards.get(key) {
            Some(s) => s,
            None => TokenState::new(self.capacity, now),
        };
        let (permitted, remaining) = state.try_consume(
            self.capacity,
            self.refill_rate_per_second,
            now,
            cost,
        );
        self.shards.set(key, state);
        token_decision(permitted, remaining, self.capacity, self.refill_rate_per_second, cost)
    }
}

} // verus!
