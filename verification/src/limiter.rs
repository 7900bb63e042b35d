//! Rate limiter configuration, decisions and the limiter itself.

use crate::algorithm::token_bucket::{TokenBucketView, TokenState, MAX_BURST, MAX_RATE_PER_SEC};
use crate::algorithm::internal::min_u64;
use crate::algorithm::{Algorithm, TokenBucket};
use crate::error::Error;
use vstd::prelude::*;
use vstd::string::*;

verus! {

/// Configuration for creating a rate limiter.
#[derive(Debug, Clone, Copy)]
pub struct RateLimiterConfig {
    /// Maximum number of requests allowed per second.
    pub requests_per_second: u64,
    /// Maximum burst size (bucket capacity).
    pub burst: u64,
}

/// What is wrong with a configuration, if anything.
pub open spec fn config_problem(requests_per_second: u64, burst: u64) -> Option<Seq<char>> {
    if requests_per_second == 0 {
        Some("requests_per_second must be greater than 0"@)
    } else if burst == 0 {
        Some("burst must be greater than 0"@)
    } else if burst < requests_per_second {
        Some("burst must be greater than or equal to requests_per_second"@)
    } else {
        None
    }
}

/// Whether `res` is the outcome that a check with the given problem reports:
/// `Ok` when there is none, otherwise a configuration error with its message.
pub open spec fn reports<T>(res: Result<T, Error>, problem: Option<Seq<char>>) -> bool {
    match problem {
        None => res is Ok,
        Some(msg) => match res {
            Err(Error::Config(m)) => m@ == msg,
            Ok(_) => false,
        },
    }
}

impl RateLimiterConfig {
    /// Validates the configuration.
    ///
    /// Returns an error if `requests_per_second` is 0, if `burst` is 0, or if
    /// `burst` is less than `requests_per_second`.
    pub fn validate(&self) -> (res: Result<(), Error>)
        ensures
            reports(res, config_problem(self.requests_per_second, self.burst)),
    {
        if self.requests_per_second == 0 {
            return Err(Error::Config(String::from_str("requests_per_second must be greater than 0")));
        }
        if self.burst == 0 {
            return Err(Error::Config(String::from_str("burst must be greater than 0")));
        }
        if self.burst < self.requests_per_second {
            return Err(
                Error::Config(
                    String::from_str("burst must be greater than or equal to requests_per_second"),
                ),
            );
        }
        Ok(())
    }
}

/// Builder for creating a rate limiter with a fluent API.
#[derive(Debug, Clone, Copy)]
pub struct RateLimiterBuilder {
    requests_per_second: Option<u64>,
    burst: Option<u64>,
}

/// What is missing from or wrong with a builder's settings, if anything.
pub open spec fn builder_problem(requests_per_second: Option<u64>, burst: Option<u64>) -> Option<
    Seq<char>,
> {
    match (requests_per_second, burst) {
        (None, _) => Some("requests_per_second must be set"@),
        (Some(_), None) => Some("burst must be set"@),
        (Some(r), Some(b)) => config_problem(r, b),
    }
}

impl RateLimiterBuilder {
    /// The requests-per-second setting, if set.
    pub closed spec fn rate_setting(&self) -> Option<u64> {
        self.requests_per_second
    }

    /// The burst setting, if set.
    pub closed spec fn burst_setting(&self) -> Option<u64> {
        self.burst
    }

    /// Creates a new builder with nothing set.
    pub fn new() -> (res: Self)
        ensures
            res.rate_setting() == None::<u64>,
            res.burst_setting() == None::<u64>,
    {
        RateLimiterBuilder { requests_per_second: None, burst: None }
    }

    /// Sets the requests per second rate limit.
    pub fn requests_per_second(self, rate: u64) -> (res: Self)
        ensures
            res.rate_setting() == Some(rate),
            res.burst_setting() == self.burst_setting(),
    {
        RateLimiterBuilder { requests_per_second: Some(rate), burst: self.burst }
    }

    /// Sets the burst size (maximum tokens in the bucket).
    ///
    /// The burst size must be at least equal to `requests_per_second`.
    pub fn burst(self, burst: u64) -> (res: Self)
        ensures
            res.burst_setting() == Some(burst),
            res.rate_setting() == self.rate_setting(),
    {
        RateLimiterBuilder { requests_per_second: self.requests_per_second, burst: Some(burst) }
    }

    /// The configuration this builder describes, when both settings are given.
    pub fn config(self) -> (res: Result<RateLimiterConfig, Error>)
        ensures
            reports(res, builder_problem(self.rate_setting(), self.burst_setting())),
            res matches Ok(c) ==> self.rate_setting() == Some(c.requests_per_second)
                && self.burst_setting() == Some(c.burst),
    {
        let requests_per_second = match self.requests_per_second {
            Some(r) => r,
            None => {
                return Err(Error::Config(String::from_str("requests_per_second must be set")));
            },
        };
        let burst = match self.burst {
            Some(b) => b,
            None => {
                return Err(Error::Config(String::from_str("burst must be set")));
            },
        };
        let config = RateLimiterConfig { requests_per_second, burst };
        match config.validate() {
            Ok(()) => Ok(config),
            Err(e) => Err(e),
        }
    }
}

impl RateLimiterBuilder {
    /// Builds the rate limiter with the configured settings.
    ///
    /// Returns an error if either `requests_per_second` or `burst` is not
    /// set, or if the configuration validation fails.
    pub fn build(self) -> (res: Result<RateLimiter<TokenBucket>, Error>)
        ensures
            reports(res, builder_problem(self.rate_setting(), self.burst_setting())),
            res matches Ok(l) ==> (l.wf() && same_but_rng(
                l@,
                fresh_token_bucket(self.burst_setting().unwrap(), self.rate_setting().unwrap()),
            )),
    {
        match self.config() {
            Ok(config) => RateLimiter::new(config),
            Err(e) => Err(e),
        }
    }
}

impl Default for RateLimiterBuilder {
    fn default() -> (res: Self)
        ensures
            res.rate_setting() == None::<u64>,
            res.burst_setting() == None::<u64>,
    {
        RateLimiterBuilder::new()
    }
}

/// Result of a rate limit check.
///
/// Delays are whole nanoseconds.
#[derive(Debug, Clone, Copy, PartialEq, Eq, Structural)]
pub struct RateLimitDecision {
    /// Whether the request is permitted.
    pub permitted: bool,
    /// How long to wait before retrying (if rate limited), in nanoseconds.
    pub retry_after: Option<u128>,
    /// Number of remaining requests in the current window.
    pub remaining: Option<u64>,
    /// The configured rate limit.
    pub limit: u64,
    /// Time until the bucket fully refills (for the IETF RateLimit-Reset
    /// header), in nanoseconds.
    pub reset: Option<u128>,
}

/// The view of a token bucket just created for a burst and a rate.
pub open spec fn fresh_token_bucket(burst: u64, requests_per_second: u64) -> TokenBucketView {
    TokenBucketView {
        capacity: min_u64(burst, MAX_BURST),
        refill_rate_per_second: min_u64(requests_per_second, MAX_RATE_PER_SEC),
        idle_ttl: None,
        rng: 0,
        states: Map::<Seq<char>, TokenState>::empty(),
    }
}

/// Whether two token-bucket views agree on everything but the random state.
pub open spec fn same_but_rng(a: TokenBucketView, b: TokenBucketView) -> bool {
    &&& a.capacity == b.capacity
    &&& a.refill_rate_per_second == b.refill_rate_per_second
    &&& a.idle_ttl == b.idle_ttl
    &&& a.states == b.states
}

/// A rate limiter that tracks requests per key and enforces limits.
pub struct RateLimiter<A = TokenBucket> {
    algorithm: A,
}

impl<A: Algorithm> View for RateLimiter<A> {
    type V = A::V;

    closed spec fn view(&self) -> A::V {
        self.algorithm@
    }
}

impl RateLimiter<TokenBucket> {
    /// Creates a new token-bucket rate limiter with the given configuration,
    /// after validating it.
    pub fn new(config: RateLimiterConfig) -> (res: Result<Self, Error>)
        ensures
            reports(res, config_problem(config.requests_per_second, config.burst)),
            res matches Ok(l) ==> (l.wf() && same_but_rng(
                l@,
                fresh_token_bucket(config.burst, config.requests_per_second),
            )),
    {
        match config.validate() {
            Ok(()) => Ok(RateLimiter { algorithm: TokenBucket::new(config.burst, config.requests_per_second) }),
            Err(e) => Err(e),
        }
    }

    /// Creates a new builder for configuring a rate limiter.
    pub fn builder() -> (res: RateLimiterBuilder)
        ensures
            res.rate_setting() == None::<u64>,
            res.burst_setting() == None::<u64>,
    {
        RateLimiterBuilder::new()
    }
}

/// A check of `cost` tokens for `key` at clock reading `now`: the limiter's
/// new view and the decision.
pub open spec fn checked_with_cost<A: Algorithm>(v: A::V, key: Seq<char>, cost: u64, now: u64) -> (
    A::V,
    RateLimitDecision,
) {
    A::step(v, key, cost, now)
}

/// A check of one request for `key` at clock reading `now`: the limiter's new
/// view and the decision.
pub open spec fn checked<A: Algorithm>(v: A::V, key: Seq<char>, now: u64) -> (A::V, RateLimitDecision) {
    A::step(v, key, 1, now)
}

/// `check(key)` is `check_with_cost(key, 1)`: from the same state and at the
/// same clock reading, both leave the same state and return the same
/// decision.
pub proof fn lemma_check_is_cost_one<A: Algorithm>(v: A::V, key: Seq<char>, now: u64)
    ensures
        checked::<A>(v, key, now) == checked_with_cost::<A>(v, key, 1, now),
{
}

impl<A: Algorithm> RateLimiter<A> {
    /// The limiter's internal invariant.
    pub closed spec fn wf(&self) -> bool {
        self.algorithm.wf()
    }

    /// Creates a rate limiter that decides with `algorithm`.
    pub fn from_algorithm(algorithm: A) -> (res: Self)
        ensures
            res@ == algorithm@,
            res.wf() == algorithm.wf(),
    {
        RateLimiter { algorithm }
    }

    /// The algorithm this limiter decides with.
    pub fn algorithm(&self) -> (res: &A)
        ensures
            res@ == self@,
            res.wf() == self.wf(),
    {
        &self.algorithm
    }

    /// Checks a request of `cost` tokens for `key` at time `now` (nanoseconds
    /// on the algorithm's clock).
    pub fn check_at(&mut self, key: &str, cost: u64, now: u64) -> (res: RateLimitDecision)
        requires
            old(self).wf(),
        ensures
            final(self).wf(),
            (final(self)@, res) == A::step(old(self)@, key@, cost, now),
    {
        self.algorithm.check_at(key, cost, now)
    }

    /// Checks if a request for the given key should be permitted.
    pub fn check(&mut self, key: &str) -> (res: RateLimitDecision)
        requires
            old(self).wf(),
        ensures
            final(self).wf(),
            exists|now: u64| (final(self)@, res) == checked::<A>(old(self)@, key@, now),
    {
        let ghost before = self.algorithm@;
        let res = self.algorithm.check(key);
        proof {
            let t = choose|t: u64| (self.algorithm@, res) == A::step(before, key@, 1, t);
            assert((self@, res) == A::step(before, key@, 1, t));
            assert(before == old(self)@);
            assert((self@, res) == checked::<A>(old(self)@, key@, t));
        }
        res
    }

    /// Checks if a request with the given cost should be permitted.
    ///
    /// Cost represents the number of tokens to consume (must be > 0); a cost
    /// of 0 is rejected without consuming quota.
    pub fn check_with_cost(&mut self, key: &str, cost: u64) -> (res: RateLimitDecision)
        requires
            old(self).wf(),
        ensures
            final(self).wf(),
            exists|now: u64| (final(self)@, res) == checked_with_cost::<A>(old(self)@, key@, cost, now),
    {
        let ghost before = self.algorithm@;
        let res = self.algorithm.check_with_cost(key, cost);
        proof {
            let t = choose|t: u64| (self.algorithm@, res) == A::step(before, key@, cost, t);
            assert((self@, res) == A::step(before, key@, cost, t));
            assert(before == old(self)@);
            assert((self@, res) == checked_with_cost::<A>(old(self)@, key@, cost, t));
        }
        res
    }

    /// Try to acquire permission without blocking: the same as [`RateLimiter::check`].
    pub fn try_acquire(&mut self, key: &str) -> (res: RateLimitDecision)
        requires
            old(self).wf(),
        ensures
            final(self).wf(),
            exists|now: u64| (final(self)@, res) == checked::<A>(old(self)@, key@, now),
    {
        self.check(key)
    }

    /// Try to acquire permission with a specific cost: the same as
    /// [`RateLimiter::check_with_cost`].
    pub fn try_acquire_n(&mut self, key: &str, cost: u64) -> (res: RateLimitDecision)
        requires
            old(self).wf(),
        ensures
            final(self).wf(),
            exists|now: u64| (final(self)@, res) == checked_with_cost::<A>(old(self)@, key@, cost, now),
    {
        self.check_with_cost(key, cost)
    }
}

/// What a waiting acquire does after a check.
#[derive(Debug, Clone, Copy, PartialEq, Eq)]
pub enum AcquireStep {
    /// Return the decision just made.
    Done,
    /// Sleep this many nanoseconds, then check again.
    Sleep(u128),
}

/// How long a waiting acquire sleeps when a denial carries no retry delay.
pub const DEFAULT_ACQUIRE_SLEEP_NANOS: u128 = 10_000_000;

/// The delay a denial asks for, or the default one.
pub open spec fn retry_delay(decision: RateLimitDecision) -> u128 {
    match decision.retry_after {
        Some(d) => d,
        None => DEFAULT_ACQUIRE_SLEEP_NANOS,
    }
}

/// The next step of an acquire that waits without limit: done once
/// permitted, otherwise sleep for the retry delay (10ms when none is given).
pub fn acquire_step(decision: &RateLimitDecision) -> (res: AcquireStep)
    ensures
        decision.permitted ==> res == AcquireStep::Done,
        !decision.permitted ==> res == AcquireStep::Sleep(retry_delay(*decision)),
{
    if decision.permitted {
        return AcquireStep::Done;
    }
    match decision.retry_after {
        Some(d) => AcquireStep::Sleep(d),
        None => AcquireStep::Sleep(DEFAULT_ACQUIRE_SLEEP_NANOS),
    }
}

/// The next step of an acquire with a timeout, `elapsed` nanoseconds after
/// it started: done once permitted or once the timeout has passed, otherwise
/// sleep for the retry delay but no longer than the time left.
pub fn acquire_timeout_step(decision: &RateLimitDecision, elapsed: u128, timeout: u128) -> (res:
    AcquireStep)
    ensures
        decision.permitted ==> res == AcquireStep::Done,
        !decision.permitted && elapsed >= timeout ==> res == AcquireStep::Done,
        !decision.permitted && elapsed < timeout ==> res == AcquireStep::Sleep(
            if retry_delay(*decision) < timeout - elapsed {
                retry_delay(*decision)
            } else {
                (timeout - elapsed) as u128
            },
        ),
{
    if decision.permitted {
        return AcquireStep::Done;
    }
    if elapsed >= timeout {
        return AcquireStep::Done;
    }
    let wanted = match decision.retry_after {
        Some(d) => d,
        None => DEFAULT_ACQUIRE_SLEEP_NANOS,
    };
    let left = timeout - elapsed;
    AcquireStep::Sleep(if wanted < left { wanted } else { left })
}

} // verus!
