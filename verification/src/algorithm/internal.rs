//! Shared internals for in-tree algorithms.
//!
//! Integer refill math, wait/reset helpers, HTTP delay rounding, and the
//! xorshift generator used for cleanup sampling.
//!
//! All durations are carried as whole nanoseconds.

use crate::limiter::RateLimitDecision;
use vstd::prelude::*;

verus! {

/// Sub-token scale used by every in-tree bucket.
pub const SCALE: u64 = 1000;

/// Nanoseconds in one second.
pub const NANOS_PER_SEC: u128 = 1_000_000_000;

/// Nanoseconds in one millisecond: the floor of every wait.
pub const NANOS_PER_MILLI: u128 = 1_000_000;

/// `a * b`, saturating at `u64::MAX`.
pub open spec fn sat_mul(a: u64, b: u64) -> u64 {
    if a * b > u64::MAX {
        u64::MAX
    } else {
        (a * b) as u64
    }
}

/// `a * b`, saturating at `u64::MAX`.
pub fn saturating_mul(a: u64, b: u64) -> (res: u64)
    ensures
        res == sat_mul(a, b),
{
    match a.checked_mul(b) {
        Some(p) => p,
        None => u64::MAX,
    }
}

/// The smaller of two values.
pub open spec fn min_u64(a: u64, b: u64) -> u64 {
    if a <= b {
        a
    } else {
        b
    }
}

/// Scaled tokens accrued over `elapsed_nanos` at `rate_scaled` per second.
pub open spec fn spec_refill_tokens(elapsed_nanos: u64, rate_scaled: u64) -> u64 {
    if elapsed_nanos == 0 || rate_scaled == 0 {
        0
    } else if elapsed_nanos * rate_scaled / 1_000_000_000 > u64::MAX {
        u64::MAX
    } else {
        (elapsed_nanos * rate_scaled / 1_000_000_000) as u64
    }
}

/// Scaled tokens accrued over `elapsed_nanos` at `rate_scaled` per second.
pub fn refill_tokens(elapsed_nanos: u64, rate_scaled: u64) -> (res: u64)
    ensures
        res == spec_refill_tokens(elapsed_nanos, rate_scaled),
{
    if elapsed_nanos == 0 || rate_scaled == 0 {
        return 0;
    }
    assert((elapsed_nanos as u128) * (rate_scaled as u128) <= u64::MAX as u128 * u64::MAX as u128)
        by (nonlinear_arith);
    let added = (elapsed_nanos as u128 * rate_scaled as u128) / NANOS_PER_SEC;
    if added > u64::MAX as u128 {
        u64::MAX
    } else {
        added as u64
    }
}

/// Nanoseconds that pay for `added` scaled tokens at `rate_scaled` per
/// second: the shortest whole interval over which at least `added` accrue
/// (the quotient rounded up).
///
/// A refill advances its clock by this interval. Rounding the quotient down
/// instead would let a refill at more than 10^9 scaled tokens per second
/// credit tokens while claiming 0 ns, so the same nanoseconds would be
/// credited again by the next refill and the bucket would admit more than
/// its capacity plus its rate. Rounded up, the claimed interval accrues
/// exactly the credited tokens and never reaches past the elapsed time.
pub open spec fn spec_nanos_for_tokens(added: u64, rate_scaled: u64) -> u64 {
    if added == 0 || rate_scaled == 0 {
        0
    } else if (added * 1_000_000_000 + rate_scaled - 1) / (rate_scaled as int) > u64::MAX {
        u64::MAX
    } else {
        ((added * 1_000_000_000 + rate_scaled - 1) / (rate_scaled as int)) as u64
    }
}

/// Inverse of [`refill_tokens`]: the nanoseconds that pay for `added` scaled
/// tokens, rounded up so that a refill never credits time it has not claimed
/// (see [`spec_nanos_for_tokens`]).
pub fn nanos_for_tokens(added: u64, rate_scaled: u64) -> (res: u64)
    ensures
        res == spec_nanos_for_tokens(added, rate_scaled),
{
    if added == 0 || rate_scaled == 0 {
        return 0;
    }
    assert((added as u128) * 1_000_000_000 <= u64::MAX as u128 * 1_000_000_000) by (nonlinear_arith);
    let nanos = (added as u128 * NANOS_PER_SEC + (rate_scaled as u128 - 1)) / (rate_scaled as u128);
    if nanos > u64::MAX as u128 {
        u64::MAX
    } else {
        nanos as u64
    }
}

/// Nanoseconds until `tokens_needed` accrue at `rate_per_second`, at least
/// one millisecond; one second when nothing ever accrues.
pub open spec fn spec_wait_for_tokens(tokens_needed: u64, rate_per_second: u64) -> u128 {
    if rate_per_second == 0 {
        1_000_000_000
    } else if tokens_needed * 1_000_000_000 / (rate_per_second as int) < 1_000_000 {
        1_000_000
    } else {
        (tokens_needed * 1_000_000_000 / (rate_per_second as int)) as u128
    }
}

/// Wait until `tokens_needed` accrue at `rate_per_second`, in nanoseconds.
/// Fractional, with a one millisecond floor; not rounded up to whole seconds.
pub fn wait_for_tokens(tokens_needed: u64, rate_per_second: u64) -> (res: u128)
    ensures
        res == spec_wait_for_tokens(tokens_needed, rate_per_second),
{
    if rate_per_second == 0 {
        return NANOS_PER_SEC;
    }
    assert((tokens_needed as u128) * 1_000_000_000 <= u64::MAX as u128 * 1_000_000_000)
        by (nonlinear_arith);
    let nanos = (tokens_needed as u128 * NANOS_PER_SEC) / (rate_per_second as u128);
    if nanos < NANOS_PER_MILLI {
        NANOS_PER_MILLI
    } else {
        nanos
    }
}

/// Nanoseconds until `missing` tokens refill; `None` if the bucket never refills.
pub open spec fn spec_time_until_full(missing: u64, rate_per_second: u64) -> Option<u128> {
    if rate_per_second == 0 {
        None
    } else if missing == 0 {
        Some(0)
    } else {
        Some(spec_wait_for_tokens(missing, rate_per_second))
    }
}

/// Time until `missing` tokens refill. `None` if the bucket never refills.
pub fn time_until_full(missing: u64, rate_per_second: u64) -> (res: Option<u128>)
    ensures
        res == spec_time_until_full(missing, rate_per_second),
{
    if rate_per_second == 0 {
        return None;
    }
    if missing == 0 {
        return Some(0);
    }
    Some(wait_for_tokens(missing, rate_per_second))
}

/// Whole seconds in a delay of `nanos` nanoseconds, rounded up, at most `u64::MAX`.
pub open spec fn spec_http_seconds_ceil(nanos: u128) -> u64 {
    if nanos == 0 {
        0
    } else if (nanos + 999_999_999) / 1_000_000_000 > u64::MAX {
        u64::MAX
    } else {
        ((nanos + 999_999_999) / 1_000_000_000) as u64
    }
}

/// RFC 9110 delay-seconds / IETF RateLimit-Reset: integer seconds.
///
/// Positive sub-second waits round up to 1 so clients never see `0` and retry
/// immediately. A true zero duration stays 0 (bucket already full).
pub fn http_seconds_ceil(nanos: u128) -> (res: u64)
    ensures
        res == spec_http_seconds_ceil(nanos),
        nanos > 0 ==> res >= 1,
        nanos == 0 ==> res == 0,
{
    if nanos == 0 {
        0
    } else {
        let secs = nanos / NANOS_PER_SEC + if nanos % NANOS_PER_SEC == 0 { 0 } else { 1 };
        assert(secs == (nanos + 999_999_999) / 1_000_000_000) by (nonlinear_arith)
            requires
                secs == nanos / 1_000_000_000 + if nanos % 1_000_000_000 == 0 { 0int } else { 1int },
        ;
        if secs > u64::MAX as u128 {
            u64::MAX
        } else {
            secs as u64
        }
    }
}

/// Whole seconds in a delay of `nanos` nanoseconds, rounded down, at most `u64::MAX`.
pub open spec fn spec_whole_seconds(nanos: u128) -> u64 {
    if nanos / 1_000_000_000 > u64::MAX {
        u64::MAX
    } else {
        (nanos / 1_000_000_000) as u64
    }
}

/// Whole seconds in a delay, rounded down (the seconds part of a duration).
pub fn whole_seconds(nanos: u128) -> (res: u64)
    ensures
        res == spec_whole_seconds(nanos),
{
    let secs = nanos / NANOS_PER_SEC;
    if secs > u64::MAX as u128 {
        u64::MAX
    } else {
        secs as u64
    }
}

/// The standard in-tree decision (token-bucket shaped remaining).
pub open spec fn spec_token_decision(
    permitted: bool,
    remaining: u64,
    limit: u64,
    rate_per_second: u64,
    cost: u64,
) -> RateLimitDecision {
    RateLimitDecision {
        permitted,
        retry_after: if !permitted {
            Some(spec_wait_for_tokens(cost.saturating_sub(remaining), rate_per_second))
        } else {
            None
        },
        remaining: Some(remaining),
        limit,
        reset: spec_time_until_full(limit.saturating_sub(remaining), rate_per_second),
    }
}

/// Build the standard in-tree decision (token-bucket shaped remaining).
pub fn token_decision(
    permitted: bool,
    remaining: u64,
    limit: u64,
    rate_per_second: u64,
    cost: u64,
) -> (res: RateLimitDecision)
    ensures
        res == spec_token_decision(permitted, remaining, limit, rate_per_second, cost),
{
    let retry_after = if !permitted {
        Some(wait_for_tokens(cost.saturating_sub(remaining), rate_per_second))
    } else {
        None
    };
    RateLimitDecision {
        permitted,
        retry_after,
        remaining: Some(remaining),
        limit,
        reset: time_until_full(limit.saturating_sub(remaining), rate_per_second),
    }
}

/// The decision for `cost == 0` (documented as invalid): denied, no metadata.
pub open spec fn spec_zero_cost_decision(limit: u64) -> RateLimitDecision {
    RateLimitDecision { permitted: false, retry_after: None, remaining: None, limit, reset: None }
}

/// Decision for `cost == 0` (documented as invalid). Does not consume.
pub fn zero_cost_decision(limit: u64) -> (res: RateLimitDecision)
    ensures
        res == spec_zero_cost_decision(limit),
{
    RateLimitDecision { permitted: false, retry_after: None, remaining: None, limit, reset: None }
}

/// One step of the xorshift64 generator; a zero state is first replaced by 1.
pub open spec fn spec_xorshift(state: u64) -> u64 {
    let x0 = if state == 0 { 1u64 } else { state };
    let x1 = x0 ^ (x0 << 13u64);
    let x2 = x1 ^ (x1 >> 7u64);
    x2 ^ (x2 << 17u64)
}

/// Advances the xorshift64 state and returns the new value.
pub fn xorshift(state: u64) -> (res: u64)
    ensures
        res == spec_xorshift(state),
{
    let mut x = state;
    if x == 0 {
        x = 1;
    }
    x = x ^ (x << 13u64);
    x = x ^ (x >> 7u64);
    x = x ^ (x << 17u64);
    x
}

/// The splitmix64 finalizer applied to a raw seed.
pub open spec fn spec_mix_seed(raw: u64) -> u64 {
    let s0 = raw.wrapping_add(0x9e37_79b9_7f4a_7c15u64);
    let s1 = (s0 ^ (s0 >> 30u64)).wrapping_mul(0xbf58_476d_1ce4_e5b9u64);
    let s2 = (s1 ^ (s1 >> 27u64)).wrapping_mul(0x94d0_49bb_1331_11ebu64);
    s2 ^ (s2 >> 31u64)
}

/// Decorrelates nearby raw seeds with the splitmix64 finalizer.
pub fn mix_seed(raw: u64) -> (res: u64)
    ensures
        res == spec_mix_seed(raw),
{
    let mut seed = raw.wrapping_add(0x9e37_79b9_7f4a_7c15);
    seed = (seed ^ (seed >> 30u64)).wrapping_mul(0xbf58_476d_1ce4_e5b9);
    seed = (seed ^ (seed >> 27u64)).wrapping_mul(0x94d0_49bb_1331_11eb);
    seed ^ (seed >> 31u64)
}

/// Whether a freshly drawn random value asks for a cleanup pass (about 1% of draws).
pub open spec fn spec_cleanup_due(draw: u64) -> bool {
    draw % 100 == 0
}

} // verus!
