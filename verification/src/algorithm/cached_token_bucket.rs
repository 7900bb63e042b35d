//! Token bucket with a one-entry cache of the most recently used hot key.
//!
//! Deprecated: prefer [`TokenBucket`](super::TokenBucket). The cache here is
//! kept coherent with the per-key map (its entry is always the map's state for
//! the cached key), and it is never used while a TTL is configured.

use crate::algorithm::internal::{spec_token_decision, spec_zero_cost_decision, token_decision, xorshift, zero_cost_decision};
use crate::algorithm::sealed::Sealed;
use crate::algorithm::token_bucket::{cleanup_draw, fresh_seed, swept, TokenState, MAX_BURST, MAX_RATE_PER_SEC};
use crate::algorithm::Algorithm;
use crate::clock::{instant_now, nanos_since};
use crate::limiter::RateLimitDecision;
use crate::store::{KeyedStore, Stamped};
use vstd::prelude::*;
use vstd::string::*;

verus! {

/// Per-key state of a cached token bucket: a token bucket and an access count.
#[derive(Clone, Copy, Debug, PartialEq, Eq)]
pub struct CachedState {
    /// The token bucket of the key.
    pub bucket: TokenState,
    /// How many requests the key has seen (wrapping).
    pub access_count: u64,
}

impl CachedState {
    /// A full bucket created at `now`, not yet accessed.
    pub open spec fn spec_new(capacity: u64, now: u64) -> CachedState {
        CachedState { bucket: TokenState::spec_new(capacity, now), access_count: 0 }
    }

    /// Creates a full bucket, not yet accessed.
    pub fn new(capacity: u64, now_nanos: u64) -> (res: CachedState)
        ensures
            res == CachedState::spec_new(capacity, now_nanos),
    {
        CachedState { bucket: TokenState::new(capacity, now_nanos), access_count: 0 }
    }

    /// The state, verdict and remaining whole tokens after a request: the
    /// access is counted, then the token bucket decides.
    pub open spec fn consumed(self, capacity: u64, refill_rate_per_second: u64, now: u64, cost: u64) -> (
        CachedState,
        bool,
        u64,
    ) {
        let (bucket, permitted, remaining) = self.bucket.consumed(
            capacity,
            refill_rate_per_second,
            now,
            cost,
        );
        (CachedState { bucket, access_count: self.access_count.wrapping_add(1) }, permitted, remaining)
    }

    /// Attempts to consume `cost` tokens at `now`, counting the access.
    pub fn try_consume(&mut self, capacity: u64, refill_rate_per_second: u64, now_nanos: u64, cost: u64) -> (res: (
        bool,
        u64,
    ))
        ensures
            (*final(self), res.0, res.1) == old(self).consumed(
                capacity,
                refill_rate_per_second,
                now_nanos,
                cost,
            ),
    {
        self.access_count = self.access_count.wrapping_add(1);
        self.bucket.try_consume(capacity, refill_rate_per_second, now_nanos, cost)
    }

    /// Whether the key is hot enough to cache: accessed more than 10 times.
    pub open spec fn spec_is_hot_key(self) -> bool {
        self.access_count > 10
    }

    /// Checks if this is a "hot" key worth caching.
    pub fn is_hot_key(&self) -> (res: bool)
        ensures
            res == self.spec_is_hot_key(),
    {
        self.access_count > 10
    }
}

impl Stamped for CachedState {
    open spec fn stamp(&self) -> u64 {
        self.bucket.last_access_nanos
    }

    fn last_access(&self) -> (res: u64) {
        self.bucket.last_access_nanos
    }
}

/// A one-entry cache: the most recently cached key and its state.
pub struct CacheEntry {
    key: Option<String>,
    state: Option<CachedState>,
    hits: u64,
    misses: u64,
}

impl CacheEntry {
    /// The cached key and state, if any.
    pub closed spec fn entry(&self) -> Option<(Seq<char>, CachedState)> {
        match (self.key, self.state) {
            (Some(k), Some(s)) => Some((k@, s)),
            _ => None,
        }
    }

    /// Lookups that found the key.
    pub closed spec fn spec_hits(&self) -> u64 {
        self.hits
    }

    /// Lookups that did not find the key.
    pub closed spec fn spec_misses(&self) -> u64 {
        self.misses
    }

    /// An empty cache.
    pub fn new() -> (res: CacheEntry)
        ensures
            res.entry() == None::<(Seq<char>, CachedState)>,
            res.spec_hits() == 0,
            res.spec_misses() == 0,
    {
        CacheEntry { key: None, state: None, hits: 0, misses: 0 }
    }

    /// Tries to get the cached state for `key`, counting a hit or a miss.
    pub fn get(&mut self, key: &str) -> (res: Option<CachedState>)
        ensures
            final(self).entry() == old(self).entry(),
            res == (match old(self).entry() {
                Some((k, s)) => if k == key@ {
                    Some(s)
                } else {
                    None
                },
                None => None,
            }),
            res is Some ==> final(self).spec_hits() == old(self).spec_hits().wrapping_add(1)
                && final(self).spec_misses() == old(self).spec_misses(),
            res is None ==> final(self).spec_misses() == old(self).spec_misses().wrapping_add(1)
                && final(self).spec_hits() == old(self).spec_hits(),
    {
        let found = match (&self.key, &self.state) {
            (Some(cached_key), Some(state)) => {
                if cached_key.eq(&String::from_str(key)) {
                    Some(*state)
                } else {
                    None
                }
            },
            _ => None,
        };
        match found {
            Some(s) => {
                self.hits = self.hits.wrapping_add(1);
                Some(s)
            },
            None => {
                self.misses = self.misses.wrapping_add(1);
                None
            },
        }
    }

    /// Updates the cache entry.
    pub fn set(&mut self, key: String, state: CachedState)
        ensures
            final(self).entry() == Some((key@, state)),
            final(self).spec_hits() == old(self).spec_hits(),
            final(self).spec_misses() == old(self).spec_misses(),
    {
        self.key = Some(key);
        self.state = Some(state);
    }

    /// Replaces the cached state when `key` is the cached key.
    pub fn refresh(&mut self, key: &str, state: CachedState)
        ensures
            final(self).entry() == (match old(self).entry() {
                Some((k, s)) => if k == key@ {
                    Some((k, state))
                } else {
                    Some((k, s))
                },
                None => None,
            }),
            final(self).spec_hits() == old(self).spec_hits(),
            final(self).spec_misses() == old(self).spec_misses(),
    {
        let matches = match (&self.key, &self.state) {
            (Some(cached_key), Some(_)) => cached_key.eq(&String::from_str(key)),
            _ => false,
        };
        if matches {
            self.state = Some(state);
        }
    }

    /// Lookups that found the key.
    pub fn hits(&self) -> (res: u64)
        ensures
            res == self.spec_hits(),
    {
        self.hits
    }

    /// Lookups that did not find the key.
    pub fn misses(&self) -> (res: u64)
        ensures
            res == self.spec_misses(),
    {
        self.misses
    }
}

/// The abstract state of a [`CachedTokenBucket`].
pub struct CachedTokenBucketView {
    /// Maximum tokens a bucket can hold (burst size).
    pub capacity: u64,
    /// Tokens added per second.
    pub refill_rate_per_second: u64,
    /// Idle time after which a key is evicted, in nanoseconds.
    pub idle_ttl: Option<u64>,
    /// State of the random generator that samples cleanup passes.
    pub rng: u64,
    /// The state of each key.
    pub states: Map<Seq<char>, CachedState>,
}

/// The view and decision after a cached token-bucket check of `cost` for `key` at `now`.
pub open spec fn cached_step(v: CachedTokenBucketView, key: Seq<char>, cost: u64, now: u64) -> (
    CachedTokenBucketView,
    RateLimitDecision,
) {
    if cost == 0 {
        (v, spec_zero_cost_decision(v.capacity))
    } else {
        let (rng, sweep) = cleanup_draw(v.idle_ttl, v.rng);
        let states = swept(v.states, v.idle_ttl, sweep, now);
        let current = if states.contains_key(key) {
            states[key]
        } else {
            CachedState::spec_new(v.capacity, now)
        };
        let (next, permitted, remaining) = current.consumed(
            v.capacity,
            v.refill_rate_per_second,
            now,
            cost,
        );
        (
            CachedTokenBucketView { rng, states: states.insert(key, next), ..v },
            spec_token_decision(permitted, remaining, v.capacity, v.refill_rate_per_second, cost),
        )
    }
}

/// Token bucket with a one-entry cache of the most recently used hot key.
///
/// Deprecated: use [`TokenBucket`](super::TokenBucket).
pub struct CachedTokenBucket {
    capacity: u64,
    refill_rate_per_second: u64,
    reference_instant: tokio::time::Instant,
    idle_ttl: Option<u64>,
    tokens: KeyedStore<CachedState>,
    cache: CacheEntry,
    rng: u64,
}

impl View for CachedTokenBucket {
    type V = CachedTokenBucketView;

    closed spec fn view(&self) -> CachedTokenBucketView {
        CachedTokenBucketView {
            capacity: self.capacity,
            refill_rate_per_second: self.refill_rate_per_second,
            idle_ttl: self.idle_ttl,
            rng: self.rng,
            states: self.tokens.view(),
        }
    }
}

impl CachedTokenBucket {
    /// Whether the cache agrees with the map: a cached key has exactly the
    /// map's state, and nothing is cached while a TTL is configured.
    pub closed spec fn cache_coherent(&self) -> bool {
        match self.cache.entry() {
            Some((k, s)) => self.idle_ttl is None && self.tokens.view().contains_key(k)
                && self.tokens.view()[k] == s,
            None => true,
        }
    }

    /// Creates a new cached token bucket, clamping capacity and rate like
    /// [`TokenBucket::new`](super::TokenBucket::new).
    pub fn new(capacity: u64, refill_rate_per_second: u64) -> (res: Self)
        ensures
            res.wf(),
            res@.capacity == (if capacity < MAX_BURST { capacity } else { MAX_BURST }),
            res@.refill_rate_per_second == (if refill_rate_per_second < MAX_RATE_PER_SEC {
                refill_rate_per_second
            } else {
                MAX_RATE_PER_SEC
            }),
            res@.idle_ttl == None::<u64>,
            res@.states == Map::<Seq<char>, CachedState>::empty(),
            res.spec_cache_hits() == 0,
            res.spec_cache_misses() == 0,
    {
        let safe_capacity = if capacity < MAX_BURST {
            capacity
        } else {
            MAX_BURST
        };
        let safe_rate = if refill_rate_per_second < MAX_RATE_PER_SEC {
            refill_rate_per_second
        } else {
            MAX_RATE_PER_SEC
        };
        CachedTokenBucket {
            capacity: safe_capacity,
            refill_rate_per_second: safe_rate,
            reference_instant: instant_now(),
            idle_ttl: None,
            tokens: KeyedStore::new(1),
            cache: CacheEntry::new(),
            rng: fresh_seed(),
        }
    }

    /// Creates a cached token bucket whose keys are evicted once idle for
    /// `idle_ttl_nanos` nanoseconds; the cache is then never used.
    pub fn with_ttl(capacity: u64, refill_rate_per_second: u64, idle_ttl_nanos: u64) -> (res: Self)
        ensures
            res.wf(),
            res@.capacity == (if capacity < MAX_BURST { capacity } else { MAX_BURST }),
            res@.refill_rate_per_second == (if refill_rate_per_second < MAX_RATE_PER_SEC {
                refill_rate_per_second
            } else {
                MAX_RATE_PER_SEC
            }),
            res@.idle_ttl == Some(idle_ttl_nanos),
            res@.states == Map::<Seq<char>, CachedState>::empty(),
    {
        let mut bucket = Self::new(capacity, refill_rate_per_second);
        bucket.idle_ttl = Some(idle_ttl_nanos);
        bucket
    }

    /// Cache lookups that found the key, so far.
    pub closed spec fn spec_cache_hits(&self) -> u64 {
        self.cache.spec_hits()
    }

    /// Cache lookups that did not find the key, so far.
    pub closed spec fn spec_cache_misses(&self) -> u64 {
        self.cache.spec_misses()
    }

    /// Cache lookups that found the key.
    pub fn cache_hits(&self) -> (res: u64)
        ensures
            res == self.spec_cache_hits(),
    {
        self.cache.hits()
    }

    /// Cache lookups that did not find the key.
    pub fn cache_misses(&self) -> (res: u64)
        ensures
            res == self.spec_cache_misses(),
    {
        self.cache.misses()
    }

    /// The state of `key`, consulting the cache first when no TTL is
    /// configured, and caching it when the key is hot.
    fn get_or_create_state_cached(&mut self, key: &str, now_nanos: u64) -> (res: CachedState)
        requires
            old(self).wf(),
        ensures
            final(self).wf(),
            final(self)@ == old(self)@,
            res == (if old(self)@.states.contains_key(key@) {
                old(self)@.states[key@]
            } else {
                CachedState::spec_new(old(self)@.capacity, now_nanos)
            }),
    {
        if self.idle_ttl.is_none() {
            if let Some(state) = self.cache.get(key) {
                return state;
            }
        }
        let state = match self.tokens.get(key) {
            Some(s) => s,
            None => CachedState::new(self.capacity, now_nanos),
        };
        if self.idle_ttl.is_none() && state.is_hot_key() && self.tokens.get(key).is_some() {
            self.cache.set(String::from_str(key), state);
        }
        state
    }

    /// Removes keys idle for at least the configured TTL; does nothing without one.
    fn cleanup_idle(&mut self, now_nanos: u64)
        requires
            old(self).wf(),
        ensures
            final(self).wf(),
            final(self)@ == (CachedTokenBucketView {
                states: swept(old(self)@.states, old(self)@.idle_ttl, true, now_nanos),
                ..old(self)@
            }),
    {
        if let Some(ttl) = self.idle_ttl {
            self.tokens.evict_idle(now_nanos, ttl);
        }
    }
}

impl Sealed for CachedTokenBucket {}

impl Algorithm for CachedTokenBucket {
    closed spec fn wf(&self) -> bool {
        &&& self.tokens.wf()
        &&& self.capacity <= MAX_BURST
        &&& self.refill_rate_per_second <= MAX_RATE_PER_SEC
        &&& self.cache_coherent()
    }

    open spec fn step(v: CachedTokenBucketView, key: Seq<char>, cost: u64, now: u64) -> (
        CachedTokenBucketView,
        RateLimitDecision,
    ) {
        cached_step(v, key, cost, now)
    }

    fn now_nanos(&self) -> u64 {
        nanos_since(&self.reference_instant)
    }

    fn check_at(&mut self, key: &str, cost: u64, now: u64) -> (res: RateLimitDecision) {
        if cost == 0 {
            return zero_cost_decision(self.capacity);
        }
        if self.idle_ttl.is_some() {
            self.rng = xorshift(self.rng);
            if self.rng % 100 == 0 {
                self.cleanup_idle(now);
            }
        }
        let mut state = self.get_or_create_state_cached(key, now);
        let (permitted, remaining) = state.try_consume(
            self.capacity,
            self.refill_rate_per_second,
            now,
            cost,
        );
        self.tokens.set(key, state);
        self.cache.refresh(key, state);
        token_decision(permitted, remaining, self.capacity, self.refill_rate_per_second, cost)
    }
}

} // verus!
