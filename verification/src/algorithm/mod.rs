//! Rate limiting algorithms.

pub mod internal;
mod sealed;
pub mod cached_token_bucket;
pub mod leaky_bucket;
pub mod probabilistic_token_bucket;
pub mod properties;
pub mod token_bucket;

pub use cached_token_bucket::CachedTokenBucket;
pub use leaky_bucket::LeakyBucket;
pub use probabilistic_token_bucket::ProbabilisticTokenBucket;
pub use token_bucket::TokenBucket;

use crate::limiter::RateLimitDecision;
use vstd::prelude::*;

verus! {

/// Trait for rate limiting algorithms.
///
/// An algorithm keeps per-key state and decides, for a key, a cost and the
/// current time, whether a request is permitted. Its behaviour is given by
/// [`Algorithm::step`] over its view.
///
/// This trait is sealed and cannot be implemented outside of this crate.
pub trait Algorithm: Sized + View + sealed::Sealed {
    /// The algorithm's internal invariant.
    spec fn wf(&self) -> bool;

    /// The new view and the decision of a check of `cost` tokens for `key` at
    /// time `now` (nanoseconds since the algorithm was created).
    spec fn step(v: Self::V, key: Seq<char>, cost: u64, now: u64) -> (Self::V, RateLimitDecision);

    /// The current time, in nanoseconds since the algorithm was created.
    fn now_nanos(&self) -> u64;

    /// Checks a request of `cost` tokens for `key` at time `now`.
    fn check_at(&mut self, key: &str, cost: u64, now: u64) -> (res: RateLimitDecision)
        requires
            old(self).wf(),
        ensures
            final(self).wf(),
            (final(self)@, res) == Self::step(old(self)@, key@, cost, now),
    ;

    /// Checks if a request for the given key should be permitted.
    fn check(&mut self, key: &str) -> (res: RateLimitDecision)
        requires
            old(self).wf(),
        ensures
            final(self).wf(),
            exists|now: u64| (final(self)@, res) == Self::step(old(self)@, key@, 1, now),
    {
        let now = self.now_nanos();
        self.check_at(key, 1, now)
    }

    /// Checks if a request with the given cost should be permitted.
    ///
    /// Cost represents the number of tokens to consume and must be > 0.
    /// A cost of 0 is rejected without consuming quota.
    fn check_with_cost(&mut self, key: &str, cost: u64) -> (res: RateLimitDecision)
        requires
            old(self).wf(),
        ensures
            final(self).wf(),
            exists|now: u64| (final(self)@, res) == Self::step(old(self)@, key@, cost, now),
    {
        let now = self.now_nanos();
        self.check_at(key, cost, now)
    }
}

} // verus!
