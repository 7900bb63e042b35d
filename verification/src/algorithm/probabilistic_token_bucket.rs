//! Probabilistic token bucket rate limiting algorithm.
//!
//! Only one request in `sample_rate` per key debits the bucket; that request
//! pays for the whole group it stands in for, so the expected debit per
//! request equals the deterministic [`TokenBucket`](super::TokenBucket)'s.
//!
//! - Sampling is systematic and counted per key: each key carries a request
//!   counter starting from a random phase, and the requests where
//!   `tick % sample_rate == 0` are sampled.
//! - Admission is probabilistic near empty: a request is admitted with
//!   probability `min(1, tokens / ramp)`, where the ramp is one lump
//!   (`sample_rate * cost` tokens) capped at the capacity.
//! - A sampled request observes the bucket at a uniformly random point in the
//!   refill window it represents.
//! - The debit is `lump * admit_probability`, charged deterministically.
//!
//! `sample_rate = 1` disables sampling and is exactly the deterministic bucket.

use crate::algorithm::internal::{
    nanos_for_tokens, sat_mul, saturating_mul, spec_nanos_for_tokens, spec_refill_tokens,
    spec_token_decision, spec_xorshift, spec_zero_cost_decision, token_decision, xorshift,
    zero_cost_decision, SCALE,
};
use crate::algorithm::sealed::Sealed;
use crate::algorithm::token_bucket::{fresh_seed, swept};
use crate::algorithm::Algorithm;
use crate::clock::{instant_now, nanos_since};
use crate::limiter::RateLimitDecision;
use crate::store::{route, shard_of, KeyedStore, Stamped};
use vstd::prelude::*;

verus! {

/// Maximum burst capacity. Token counts are held in an `i64` (they may go
/// transiently negative), so the bound is `i64::MAX / (2 * SCALE)`.
pub const MAX_BURST: u64 = 4_611_686_018_427_387;

/// Maximum refill rate per second: `i64::MAX / (2 * SCALE)`.
pub const MAX_RATE_PER_SEC: u64 = 4_611_686_018_427_387;

/// Number of shards for the per-key maps.
pub const NUM_SHARDS: usize = 256;

/// `a + b`, saturating at the bounds of `i64`.
pub open spec fn sat_add_i64(a: i64, b: i64) -> i64 {
    if a + b > i64::MAX {
        i64::MAX
    } else if a + b < i64::MIN {
        i64::MIN
    } else {
        (a + b) as i64
    }
}

/// `a + b`, saturating at the bounds of `i64`.
pub fn saturating_add_i64(a: i64, b: i64) -> (res: i64)
    ensures
        res == sat_add_i64(a, b),
{
    let s = a as i128 + b as i128;
    if s > i64::MAX as i128 {
        i64::MAX
    } else if s < i64::MIN as i128 {
        i64::MIN
    } else {
        s as i64
    }
}

/// `a - b`, saturating at the bounds of `i64`.
pub open spec fn sat_sub_i64(a: i64, b: i64) -> i64 {
    if a - b > i64::MAX {
        i64::MAX
    } else if a - b < i64::MIN {
        i64::MIN
    } else {
        (a - b) as i64
    }
}

/// `a - b`, saturating at the bounds of `i64`.
pub fn saturating_sub_i64(a: i64, b: i64) -> (res: i64)
    ensures
        res == sat_sub_i64(a, b),
{
    let s = a as i128 - b as i128;
    if s > i64::MAX as i128 {
        i64::MAX
    } else if s < i64::MIN as i128 {
        i64::MIN
    } else {
        s as i64
    }
}

/// The smaller of two values.
pub open spec fn min_i64(a: i64, b: i64) -> i64 {
    if a <= b {
        a
    } else {
        b
    }
}

/// A token count scaled for sub-token precision, saturating at `i64::MAX`.
pub open spec fn spec_scaled(tokens: u64) -> i64 {
    if sat_mul(tokens, SCALE) > i64::MAX {
        i64::MAX
    } else {
        sat_mul(tokens, SCALE) as i64
    }
}

/// Scales a token count for sub-token precision, saturating at `i64::MAX`.
pub fn scaled(tokens: u64) -> (res: i64)
    ensures
        res == spec_scaled(tokens),
{
    let s = saturating_mul(tokens, SCALE);
    if s > i64::MAX as u64 {
        i64::MAX
    } else {
        s as i64
    }
}

/// Scaled tokens accrued over `elapsed_nanos` at `rate_scaled` per second,
/// at most `i64::MAX`.
pub open spec fn spec_refill_i64(elapsed_nanos: u64, rate_scaled: u64) -> i64 {
    if elapsed_nanos == 0 || rate_scaled == 0 {
        0
    } else if elapsed_nanos * rate_scaled / 1_000_000_000 > i64::MAX {
        i64::MAX
    } else {
        (elapsed_nanos * rate_scaled / 1_000_000_000) as i64
    }
}

/// Tokens (already scaled) accrued over `elapsed_nanos` at `rate_scaled` per second.
pub fn refill_tokens(elapsed_nanos: u64, rate_scaled: u64) -> (res: i64)
    ensures
        res == spec_refill_i64(elapsed_nanos, rate_scaled),
{
    if elapsed_nanos == 0 || rate_scaled == 0 {
        return 0;
    }
    assert((elapsed_nanos as u128) * (rate_scaled as u128) <= u64::MAX as u128 * u64::MAX as u128)
        by (nonlinear_arith);
    let added = (elapsed_nanos as u128 * rate_scaled as u128) / 1_000_000_000u128;
    if added > i64::MAX as u128 {
        i64::MAX
    } else {
        added as i64
    }
}

/// The part of `accrued` that a random draw picks: `accrued * f` for the
/// fraction `f` given by the high 32 bits of `draw`.
pub open spec fn spec_fraction_of(accrued: i64, draw: u64) -> i64 {
    (accrued * (draw / 0x1_0000_0000) / 0x1_0000_0000) as i64
}

/// A uniformly random amount in `[0, accrued]`, and the generator state
/// after it; the generator is drawn from only when `accrued > 0`.
pub open spec fn random_fraction_step(accrued: i64, rng: u64) -> (i64, u64) {
    if accrued <= 0 {
        (0, rng)
    } else {
        (spec_fraction_of(accrued, spec_xorshift(rng)), spec_xorshift(rng))
    }
}

/// A uniformly random amount in `[0, accrued]`.
pub fn random_fraction_of(accrued: i64, rng: &mut u64) -> (res: i64)
    ensures
        (res, *final(rng)) == random_fraction_step(accrued, *old(rng)),
        0 <= res <= (if accrued < 0 { 0 } else { accrued }),
{
    if accrued <= 0 {
        return 0;
    }
    *rng = xorshift(*rng);
    let fraction = (*rng / 0x1_0000_0000) as u128;
    assert(fraction < 0x1_0000_0000);
    assert((accrued as u128) * fraction <= (accrued as u128) * 0xffff_ffff) by (nonlinear_arith)
        requires
            fraction <= 0xffff_ffff,
    ;
    assert((accrued as u128) * 0xffff_ffff / 0x1_0000_0000 <= accrued as u128) by (nonlinear_arith);
    let part = (accrued as u128 * fraction) / 0x1_0000_0000u128;
    assert(part <= accrued as u128) by (nonlinear_arith)
        requires
            part == (accrued as u128) * fraction / 0x1_0000_0000,
            (accrued as u128) * fraction <= (accrued as u128) * 0xffff_ffff,
            (accrued as u128) * 0xffff_ffff / 0x1_0000_0000 <= accrued as u128,
    ;
    part as i64
}

/// The admission verdict for a bucket holding `available` scaled tokens
/// against `ramp`, and the generator state after it: certain admission once
/// the ramp is covered, certain denial when nothing is available, and
/// otherwise admission with probability `available / ramp`.
pub open spec fn admit_step(available: i64, ramp: i64, rng: u64) -> (bool, u64) {
    if available >= ramp {
        (true, rng)
    } else if available <= 0 {
        (false, rng)
    } else {
        (spec_xorshift(rng) % (ramp as u64) < available as u64, spec_xorshift(rng))
    }
}

/// Admission decision for a bucket holding `available` scaled tokens.
pub fn admission(available: i64, ramp: i64, rng: &mut u64) -> (res: bool)
    ensures
        (res, *final(rng)) == admit_step(available, ramp, *old(rng)),
{
    if available >= ramp {
        return true;
    }
    if available <= 0 {
        return false;
    }
    *rng = xorshift(*rng);
    (*rng % (ramp as u64)) < (available as u64)
}

/// The unscaled, non-negative count reported for `available` scaled tokens.
pub open spec fn spec_remaining_of(available: i64) -> u64 {
    if available <= 0 {
        0
    } else {
        (available / 1000) as u64
    }
}

/// Clamps a signed scaled token count to the unscaled, non-negative count
/// reported to callers.
pub fn remaining_of(available: i64) -> (res: u64)
    ensures
        res == spec_remaining_of(available),
{
    if available <= 0 {
        0
    } else {
        (available as u64) / SCALE
    }
}

/// The decision a probabilistic bucket reports: the standard one, except
/// that a full bucket reports a reset of zero even when it never refills.
pub open spec fn spec_probabilistic_decision(
    permitted: bool,
    remaining: u64,
    limit: u64,
    rate_per_second: u64,
    cost: u64,
) -> RateLimitDecision {
    let d = spec_token_decision(permitted, remaining, limit, rate_per_second, cost);
    if remaining >= limit {
        RateLimitDecision { reset: Some(0), ..d }
    } else {
        d
    }
}

/// Builds the decision a probabilistic bucket reports.
pub fn probabilistic_decision(
    permitted: bool,
    remaining: u64,
    limit: u64,
    rate_per_second: u64,
    cost: u64,
) -> (res: RateLimitDecision)
    ensures
        res == spec_probabilistic_decision(permitted, remaining, limit, rate_per_second, cost),
{
    let d = token_decision(permitted, remaining, limit, rate_per_second, cost);
    if remaining >= limit {
        RateLimitDecision { reset: Some(0), ..d }
    } else {
        d
    }
}

/// Per-key state of a probabilistic token bucket.
#[derive(Clone, Copy, Debug, PartialEq, Eq)]
pub struct ProbabilisticState {
    /// Available tokens, scaled. Signed on purpose: a sampled request debits
    /// a whole lump, which can overdraw the bucket; the debt is repaid out of
    /// later refill.
    pub tokens: i64,
    /// Time up to which elapsed time has been credited as tokens.
    pub last_refill_nanos: u64,
    /// Per-key systematic sampler tick.
    pub request_tick: u64,
    /// Last access time, used for TTL-based eviction.
    pub last_access_nanos: u64,
}

impl ProbabilisticState {
    /// A full bucket created at `now` whose sampler starts at `tick`.
    pub open spec fn spec_new(capacity: u64, now: u64, tick: u64) -> ProbabilisticState {
        ProbabilisticState {
            tokens: spec_scaled(capacity),
            last_refill_nanos: now,
            request_tick: tick,
            last_access_nanos: now,
        }
    }

    /// Creates a full bucket whose sampler starts at `tick`.
    pub fn new(capacity: u64, now_nanos: u64, tick: u64) -> (res: ProbabilisticState)
        ensures
            res == ProbabilisticState::spec_new(capacity, now_nanos, tick),
    {
        ProbabilisticState {
            tokens: scaled(capacity),
            last_refill_nanos: now_nanos,
            request_tick: tick,
            last_access_nanos: now_nanos,
        }
    }

    /// Whether the current request is sampled, and the advanced tick.
    pub open spec fn sampled(self, sample_rate: u32) -> (ProbabilisticState, bool) {
        (
            ProbabilisticState { request_tick: self.request_tick.wrapping_add(1), ..self },
            self.request_tick % (sample_rate as u64) == 0,
        )
    }

    /// Returns `true` if this request should perform the shared-state update:
    /// exactly one request in `sample_rate` does, counted per key.
    pub fn should_sample(&mut self, sample_rate: u32) -> (res: bool)
        requires
            sample_rate >= 1,
        ensures
            (*final(self), res) == old(self).sampled(sample_rate),
    {
        let tick = self.request_tick;
        self.request_tick = tick.wrapping_add(1);
        tick % (sample_rate as u64) == 0
    }

    /// The state after crediting the whole tokens accrued since the last
    /// refill. The clock advances by the interval that pays for them, so no
    /// nanosecond is credited twice; a bucket at or over capacity is not
    /// topped up, and the credit never fills it past capacity.
    pub open spec fn refilled(self, capacity_scaled: i64, rate_scaled: u64, now: u64) -> ProbabilisticState {
        let added = spec_refill_tokens(now.saturating_sub(self.last_refill_nanos), rate_scaled);
        if added == 0 {
            self
        } else {
            ProbabilisticState {
                tokens: if self.tokens >= capacity_scaled {
                    self.tokens
                } else if self.tokens + added < capacity_scaled {
                    (self.tokens + added) as i64
                } else {
                    capacity_scaled
                },
                last_refill_nanos: self.last_refill_nanos.saturating_add(
                    spec_nanos_for_tokens(added, rate_scaled),
                ),
                ..self
            }
        }
    }

    /// Credits elapsed time to the bucket, claiming the interval first.
    pub fn apply_refill(&mut self, capacity_scaled: i64, rate_scaled: u64, now_nanos: u64)
        ensures
            *final(self) == old(self).refilled(capacity_scaled, rate_scaled, now_nanos),
    {
        let added = crate::algorithm::internal::refill_tokens(now_nanos.saturating_sub(self.last_refill_nanos), rate_scaled);
        if added == 0 {
            return ;
        }
        let claimed = nanos_for_tokens(added, rate_scaled);
        self.last_refill_nanos = self.last_refill_nanos.saturating_add(claimed);
        if self.tokens < capacity_scaled {
            let sum = self.tokens as i128 + added as i128;
            self.tokens = if sum < capacity_scaled as i128 {
                sum as i64
            } else {
                capacity_scaled
            };
        }
    }

    /// The fill level including refill accrued but not yet credited.
    pub open spec fn spec_estimate(self, capacity_scaled: i64, rate_scaled: u64, now: u64) -> i64 {
        min_i64(
            sat_add_i64(
                self.tokens,
                spec_refill_i64(now.saturating_sub(self.last_refill_nanos), rate_scaled),
            ),
            capacity_scaled,
        )
    }

    /// Read-only estimate of the current fill level, including refill that
    /// has accrued but has not been credited yet.
    pub fn estimate(&self, capacity_scaled: i64, rate_scaled: u64, now_nanos: u64) -> (res: i64)
        ensures
            res == self.spec_estimate(capacity_scaled, rate_scaled, now_nanos),
    {
        let added = refill_tokens(now_nanos.saturating_sub(self.last_refill_nanos), rate_scaled);
        let sum = saturating_add_i64(self.tokens, added);
        if sum < capacity_scaled {
            sum
        } else {
            capacity_scaled
        }
    }

    /// The state, verdict and remaining whole tokens of an exact (unsampled)
    /// consumption of `cost_scaled`.
    pub open spec fn exact(self, capacity_scaled: i64, rate_scaled: u64, now: u64, cost_scaled: i64) -> (
        ProbabilisticState,
        bool,
        u64,
    ) {
        let r = self.refilled(capacity_scaled, rate_scaled, now);
        if r.tokens >= cost_scaled {
            (
                ProbabilisticState { tokens: (r.tokens - cost_scaled) as i64, ..r },
                true,
                spec_remaining_of((r.tokens - cost_scaled) as i64),
            )
        } else {
            (r, false, spec_remaining_of(r.tokens))
        }
    }

    /// Exact (unsampled) consumption, used when `sample_rate == 1`.
    pub fn consume_exact(&mut self, capacity_scaled: i64, rate_scaled: u64, now_nanos: u64, cost_scaled: i64) -> (res: (
        bool,
        u64,
    ))
        requires
            cost_scaled >= 0,
        ensures
            (*final(self), res.0, res.1) == old(self).exact(
                capacity_scaled,
                rate_scaled,
                now_nanos,
                cost_scaled,
            ),
    {
        self.apply_refill(capacity_scaled, rate_scaled, now_nanos);
        let current = self.tokens;
        if current >= cost_scaled {
            self.tokens = current - cost_scaled;
            (true, remaining_of(current - cost_scaled))
        } else {
            (false, remaining_of(current))
        }
    }

    /// The debit a sampled request charges: the whole lump once the ramp is
    /// covered, nothing when nothing is observed, and otherwise the lump
    /// scaled by the admission probability `observed / ramp`.
    pub open spec fn spec_debit(lump: i64, observed: i64, ramp: i64) -> i64 {
        if observed >= ramp {
            lump
        } else if observed <= 0 {
            0
        } else {
            (lump * observed / (ramp as int)) as i64
        }
    }

    /// The state, verdict, remaining whole tokens and generator state after a
    /// probabilistic consumption of `cost` at `now`.
    pub open spec fn probabilistic(
        self,
        capacity: u64,
        refill_rate_per_second: u64,
        now: u64,
        cost: u64,
        sample_rate: u32,
        track_access: bool,
        rng: u64,
    ) -> (ProbabilisticState, bool, u64, u64) {
        let s0 = if track_access {
            ProbabilisticState { last_access_nanos: now, ..self }
        } else {
            self
        };
        let capacity_scaled = spec_scaled(capacity);
        let rate_scaled = sat_mul(refill_rate_per_second, SCALE);
        let cost_scaled = spec_scaled(cost);
        if sample_rate <= 1 {
            let (s1, permitted, remaining) = s0.exact(capacity_scaled, rate_scaled, now, cost_scaled);
            (s1, permitted, remaining, rng)
        } else {
            let lump = if cost_scaled * sample_rate > i64::MAX {
                i64::MAX
            } else {
                (cost_scaled * sample_rate) as i64
            };
            let ramp = if min_i64(lump, capacity_scaled) < 1 {
                1i64
            } else {
                min_i64(lump, capacity_scaled)
            };
            let (s1, sampled) = s0.sampled(sample_rate);
            if !sampled {
                if s1.tokens >= ramp {
                    (s1, true, spec_remaining_of(s1.tokens), rng)
                } else {
                    let available = s1.spec_estimate(capacity_scaled, rate_scaled, now);
                    let (permitted, rng1) = admit_step(available, ramp, rng);
                    (s1, permitted, spec_remaining_of(available), rng1)
                }
            } else {
                let accrued = spec_refill_i64(now.saturating_sub(s1.last_refill_nanos), rate_scaled);
                let (part, rng1) = random_fraction_step(accrued, rng);
                let observed = min_i64(sat_add_i64(s1.tokens, part), capacity_scaled);
                let s2 = s1.refilled(capacity_scaled, rate_scaled, now);
                let debit = ProbabilisticState::spec_debit(lump, observed, ramp);
                let s3 = if debit > 0 {
                    ProbabilisticState { tokens: sat_sub_i64(s2.tokens, debit), ..s2 }
                } else {
                    s2
                };
                let (permitted, rng2) = admit_step(observed, ramp, rng1);
                (s3, permitted, spec_remaining_of(sat_sub_i64(s2.tokens, debit)), rng2)
            }
        }
    }

    /// Tries to consume `cost` tokens probabilistically.
    ///
    /// Only one request in `sample_rate` performs the read-modify-write and
    /// debits `sample_rate * cost` tokens for its group; every request is
    /// admitted with probability `min(1, tokens / ramp)`.
    ///
    /// Returns `(permitted, remaining_tokens)`.
    #[verifier::rlimit(40)]
    pub fn try_consume_probabilistic(
        &mut self,
        capacity: u64,
        refill_rate_per_second: u64,
        now_nanos: u64,
        cost: u64,
        sample_rate: u32,
        track_access: bool,
        rng: &mut u64,
    ) -> (res: (bool, u64))
        requires
            sample_rate >= 1,
        ensures
            (*final(self), res.0, res.1, *final(rng)) == old(self).probabilistic(
                capacity,
                refill_rate_per_second,
                now_nanos,
                cost,
                sample_rate,
                track_access,
                *old(rng),
            ),
    {
        if track_access {
            self.last_access_nanos = now_nanos;
        }
        let capacity_scaled = scaled(capacity);
        let rate_scaled = saturating_mul(refill_rate_per_second, SCALE);
        let cost_scaled = scaled(cost);
        if sample_rate <= 1 {
            return self.consume_exact(capacity_scaled, rate_scaled, now_nanos, cost_scaled);
        }
        assert(0 <= (cost_scaled as i128) * (sample_rate as i128) <= 0x7fff_ffff_ffff_ffff * 0xffff_ffff)
            by (nonlinear_arith)
            requires
                0 <= cost_scaled <= 0x7fff_ffff_ffff_ffff,
                0 <= sample_rate <= 0xffff_ffff,
        ;
        let wide_lump = cost_scaled as i128 * sample_rate as i128;
        assert(wide_lump == cost_scaled * sample_rate) by (nonlinear_arith)
            requires
                wide_lump == (cost_scaled as i128) * (sample_rate as i128),
        ;
        assert(0 <= wide_lump) by (nonlinear_arith)
            requires
                wide_lump == cost_scaled * sample_rate,
                cost_scaled >= 0,
        ;
        let lump: i64 = if wide_lump > i64::MAX as i128 {
            i64::MAX
        } else {
            wide_lump as i64
        };
        let capped = if lump < capacity_scaled {
            lump
        } else {
            capacity_scaled
        };
        let ramp: i64 = if capped < 1 {
            1
        } else {
            capped
        };
        if !self.should_sample(sample_rate) {
            let current = self.tokens;
            if current >= ramp {
                return (true, remaining_of(current));
            }
            let available = self.estimate(capacity_scaled, rate_scaled, now_nanos);
            let permitted = admission(available, ramp, rng);
            return (permitted, remaining_of(available));
        }
        let current = self.tokens;
        let accrued = refill_tokens(now_nanos.saturating_sub(self.last_refill_nanos), rate_scaled);
        let part = random_fraction_of(accrued, rng);
        let sum = saturating_add_i64(current, part);
        let observed = if sum < capacity_scaled {
            sum
        } else {
            capacity_scaled
        };
        self.apply_refill(capacity_scaled, rate_scaled, now_nanos);
        let debit: i64 = if observed >= ramp {
            lump
        } else if observed <= 0 {
            0
        } else {
            assert(0 <= lump * observed / (ramp as int) <= lump) by (nonlinear_arith)
                requires
                    0 < observed < ramp,
                    0 <= lump,
            ;
            assert(0 <= (lump as i128) * (observed as i128) <= 0x7fff_ffff_ffff_ffff
                * 0x7fff_ffff_ffff_ffff) by (nonlinear_arith)
                requires
                    0 <= lump <= 0x7fff_ffff_ffff_ffff,
                    0 < observed <= 0x7fff_ffff_ffff_ffff,
            ;
            ((lump as i128 * observed as i128) / (ramp as i128)) as i64
        };
        let previous = self.tokens;
        if debit > 0 {
            self.tokens = saturating_sub_i64(previous, debit);
        }
        let permitted = admission(observed, ramp, rng);
        (permitted, remaining_of(saturating_sub_i64(previous, debit)))
    }
}

impl Stamped for ProbabilisticState {
    open spec fn stamp(&self) -> u64 {
        self.last_access_nanos
    }

    fn last_access(&self) -> (res: u64) {
        self.last_access_nanos
    }
}

/// The abstract state of a [`ProbabilisticTokenBucket`].
pub struct ProbabilisticTokenBucketView {
    /// Maximum tokens a bucket can hold (burst size).
    pub capacity: u64,
    /// Tokens added per second.
    pub refill_rate_per_second: u64,
    /// Idle time after which a key is evicted, in nanoseconds.
    pub idle_ttl: Option<u64>,
    /// One request in `sample_rate` per key is sampled.
    pub sample_rate: u32,
    /// State of the random generator.
    pub rng: u64,
    /// The state of each key.
    pub states: Map<Seq<char>, ProbabilisticState>,
}

/// The random state after a check, and whether that check sweeps idle keys:
/// with a TTL, one draw, sweeping on about one draw in `sample_rate * 100`.
pub open spec fn probabilistic_cleanup_draw(idle_ttl: Option<u64>, sample_rate: u32, rng: u64) -> (u64, bool) {
    match idle_ttl {
        Some(_) => (
            spec_xorshift(rng),
            spec_xorshift(rng) % ((sample_rate as u64) * 100) as u64 == 0,
        ),
        None => (rng, false),
    }
}

/// The view and decision after a probabilistic check of `cost` for `key` at `now`.
pub open spec fn probabilistic_step(v: ProbabilisticTokenBucketView, key: Seq<char>, cost: u64, now: u64) -> (
    ProbabilisticTokenBucketView,
    RateLimitDecision,
) {
    if cost == 0 {
        (v, spec_zero_cost_decision(v.capacity))
    } else {
        let (rng1, sweep) = probabilistic_cleanup_draw(v.idle_ttl, v.sample_rate, v.rng);
        let states = swept(v.states, v.idle_ttl, sweep, now);
        let (current, rng2) = if states.contains_key(key) {
            (states[key], rng1)
        } else {
            (
                ProbabilisticState::spec_new(v.capacity, now, spec_xorshift(rng1)),
                spec_xorshift(rng1),
            )
        };
        let (next, permitted, remaining, rng3) = current.probabilistic(
            v.capacity,
            v.refill_rate_per_second,
            now,
            cost,
            v.sample_rate,
            v.idle_ttl is Some,
            rng2,
        );
        (
            ProbabilisticTokenBucketView { rng: rng3, states: states.insert(key, next), ..v },
            spec_probabilistic_decision(permitted, remaining, v.capacity, v.refill_rate_per_second, cost),
        )
    }
}

/// Probabilistic token bucket with fixed sampling rate.
///
/// Only one request in `sample_rate` per key performs the bucket update and
/// debits `sample_rate * cost` tokens on behalf of its group. Admission is
/// probabilistic on the ramp, so the long-run admitted rate converges to
/// `min(offered_rate, refill_rate)`. `sample_rate = 1` is exactly the
/// deterministic token bucket. Keep `capacity >= 10 * sample_rate * cost`.
pub struct ProbabilisticTokenBucket {
    capacity: u64,
    refill_rate_per_second: u64,
    reference_instant: tokio::time::Instant,
    idle_ttl: Option<u64>,
    shards: KeyedStore<ProbabilisticState>,
    sample_rate: u32,
    rng: u64,
}

impl View for ProbabilisticTokenBucket {
    type V = ProbabilisticTokenBucketView;

    closed spec fn view(&self) -> ProbabilisticTokenBucketView {
        ProbabilisticTokenBucketView {
            capacity: self.capacity,
            refill_rate_per_second: self.refill_rate_per_second,
            idle_ttl: self.idle_ttl,
            sample_rate: self.sample_rate,
            rng: self.rng,
            states: self.shards.view(),
        }
    }
}

impl ProbabilisticTokenBucket {
    /// Gets the shard index for a given key.
    pub fn get_shard_index(key: &str) -> (res: usize)
        ensures
            res == route(key@, NUM_SHARDS as nat),
            res < NUM_SHARDS,
    {
        shard_of(key, NUM_SHARDS)
    }

    /// Creates a new probabilistic token bucket with the specified sampling
    /// rate (1 in `sample_rate` requests per key is sampled). Capacity and
    /// rate are clamped to [`MAX_BURST`] and [`MAX_RATE_PER_SEC`].
    ///
    /// `sample_rate` must be at least 1.
    pub fn new(capacity: u64, refill_rate_per_second: u64, sample_rate: u32) -> (res: Self)
        requires
            sample_rate >= 1,
        ensures
            res.wf(),
            res@.capacity == (if capacity < MAX_BURST { capacity } else { MAX_BURST }),
            res@.refill_rate_per_second == (if refill_rate_per_second < MAX_RATE_PER_SEC {
                refill_rate_per_second
            } else {
                MAX_RATE_PER_SEC
            }),
            res@.sample_rate == sample_rate,
            res@.idle_ttl == None::<u64>,
            res@.states == Map::<Seq<char>, ProbabilisticState>::empty(),
    {
        let safe_capacity = if capacity < MAX_BURST {
            capacity
        } else {
            MAX_BURST
        };
        let safe_rate = if refill_rate_per_second < MAX_RATE_PER_SEC {
            refill_rate_per_second
        } else {
            MAX_RATE_PER_SEC
        };
        ProbabilisticTokenBucket {
            capacity: safe_capacity,
            refill_rate_per_second: safe_rate,
            reference_instant: instant_now(),
            idle_ttl: None,
            shards: KeyedStore::new(NUM_SHARDS),
            sample_rate,
            rng: fresh_seed(),
        }
    }

    /// Creates a new probabilistic token bucket whose keys are evicted once
    /// idle for `idle_ttl_nanos` nanoseconds. `sample_rate` must be at least 1.
    pub fn with_ttl(capacity: u64, refill_rate_per_second: u64, sample_rate: u32, idle_ttl_nanos: u64) -> (res:
        Self)
        requires
            sample_rate >= 1,
        ensures
            res.wf(),
            res@.capacity == (if capacity < MAX_BURST { capacity } else { MAX_BURST }),
            res@.refill_rate_per_second == (if refill_rate_per_second < MAX_RATE_PER_SEC {
                refill_rate_per_second
            } else {
                MAX_RATE_PER_SEC
            }),
            res@.sample_rate == sample_rate,
            res@.idle_ttl == Some(idle_ttl_nanos),
            res@.states == Map::<Seq<char>, ProbabilisticState>::empty(),
    {
        let mut bucket = Self::new(capacity, refill_rate_per_second, sample_rate);
        bucket.idle_ttl = Some(idle_ttl_nanos);
        bucket
    }

    /// Get the configured sampling rate.
    pub fn sample_rate(&self) -> (res: u32)
        ensures
            res == self@.sample_rate,
    {
        self.sample_rate
    }

    /// The number of keys that have state.
    pub fn len(&self) -> (res: usize)
        requires
            self.wf(),
        ensures
            res == self@.states.dom().len(),
            self@.states.dom().finite(),
    {
        self.shards.len()
    }

    /// Removes keys idle for at least the configured TTL; does nothing without one.
    fn cleanup_idle(&mut self, now_nanos: u64)
        requires
            old(self).wf(),
        ensures
            final(self).wf(),
            final(self)@ == (ProbabilisticTokenBucketView {
                states: swept(old(self)@.states, old(self)@.idle_ttl, true, now_nanos),
                ..old(self)@
            }),
    {
        if let Some(ttl) = self.idle_ttl {
            self.shards.evict_idle(now_nanos, ttl);
        }
    }
}

impl Sealed for ProbabilisticTokenBucket {}

impl Algorithm for ProbabilisticTokenBucket {
    closed spec fn wf(&self) -> bool {
        &&& self.shards.wf()
        &&& self.shards.shard_count() == NUM_SHARDS
        &&& self.sample_rate >= 1
        &&& self.capacity <= MAX_BURST
        &&& self.refill_rate_per_second <= MAX_RATE_PER_SEC
    }

    open spec fn step(v: ProbabilisticTokenBucketView, key: Seq<char>, cost: u64, now: u64) -> (
        ProbabilisticTokenBucketView,
        RateLimitDecision,
    ) {
        probabilistic_step(v, key, cost, now)
    }

    fn now_nanos(&self) -> u64 {
        nanos_since(&self.reference_instant)
    }

    fn check_at(&mut self, key: &str, cost: u64, now: u64) -> (res: RateLimitDecision) {
        if cost == 0 {
            return zero_cost_decision(self.capacity);
        }
        let track_access = self.idle_ttl.is_some();
        if track_access {
            self.rng = xorshift(self.rng);
            if self.rng % (self.sample_rate as u64 * 100) == 0 {
                self.cleanup_idle(now);
            }
        }
        let mut state = match self.shards.get(key) {
            Some(s) => s,
            None => {
                self.rng = xorshift(self.rng);
                ProbabilisticState::new(self.capacity, now, self.rng)
            },
        };
        let mut rng = self.rng;
        let (permitted, remaining) = state.try_consume_probabilistic(
            self.capacity,
            self.refill_rate_per_second,
            now,
            cost,
            self.sample_rate,
            track_access,
            &mut rng,
        );
        self.rng = rng;
        self.shards.set(key, state);
        probabilistic_decision(permitted, remaining, self.capacity, self.refill_rate_per_second, cost)
    }
}

} // verus!
