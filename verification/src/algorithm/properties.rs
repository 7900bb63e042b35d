//! Properties of the in-tree algorithms that span several checks or relate
//! several algorithms, stated over their per-key state machines and steps.

use crate::algorithm::internal::{
    sat_mul, spec_nanos_for_tokens, spec_refill_tokens, spec_token_decision, spec_wait_for_tokens,
    spec_zero_cost_decision, SCALE,
};
use crate::algorithm::cached_token_bucket::{cached_step, CachedState, CachedTokenBucketView};
use crate::algorithm::leaky_bucket::{
    leaky_bucket_step, spec_leaky_decision, LeakyBucketView, LeakyState, MAX_CAPACITY, MAX_LEAK_RATE,
};
use crate::algorithm::probabilistic_token_bucket::{
    probabilistic_step, random_fraction_step, sat_add_i64, spec_fraction_of, spec_refill_i64,
    spec_scaled, ProbabilisticState, ProbabilisticTokenBucketView,
};
use crate::limiter::RateLimitDecision;
use crate::algorithm::token_bucket::{
    token_bucket_step, TokenBucketView, TokenState, MAX_BURST, MAX_RATE_PER_SEC,
};
use crate::store::{is_idle, without_idle, Stamped};
use vstd::prelude::*;

verus! {

/// The scaled cost a permitted request takes.
pub open spec fn taken(permitted: bool, cost: u64) -> int {
    if permitted {
        sat_mul(cost, SCALE) as int
    } else {
        0
    }
}

/// The state of one key after a run of token-bucket requests, given as
/// `(time, cost)` pairs, and the scaled tokens the permitted ones took.
pub open spec fn token_run(
    s: TokenState,
    capacity: u64,
    refill_rate_per_second: u64,
    requests: Seq<(u64, u64)>,
) -> (TokenState, int)
    decreases requests.len(),
{
    if requests.len() == 0 {
        (s, 0)
    } else {
        let (before, taken_before) = token_run(
            s,
            capacity,
            refill_rate_per_second,
            requests.drop_last(),
        );
        let (t, cost) = requests.last();
        let (after, permitted, _) = before.consumed(capacity, refill_rate_per_second, t, cost);
        (after, taken_before + taken(permitted, cost))
    }
}

/// Whether the request times are in non-decreasing order and none is
/// earlier than `start`.
pub open spec fn times_from(start: u64, requests: Seq<(u64, u64)>) -> bool {
    &&& forall|i: int, j: int| 0 <= i <= j < requests.len() ==> #[trigger] requests[i].0 <= #[trigger] requests[j].0
    &&& forall|i: int| 0 <= i < requests.len() ==> start <= #[trigger] requests[i].0
}

/// A refill claims exactly what it credits: the tokens accrued over
/// `elapsed` nanoseconds are paid for by a claimed interval no longer than
/// `elapsed`, and that interval accrues exactly the credited tokens. A
/// credit always claims at least one nanosecond.
pub proof fn lemma_claim_rounding(elapsed: u64, rate_scaled: u64)
    ensures
        ({
            let added = spec_refill_tokens(elapsed, rate_scaled);
            let claimed = spec_nanos_for_tokens(added, rate_scaled);
            &&& claimed <= elapsed
            &&& 1_000_000_000 * added <= rate_scaled * claimed
            &&& spec_refill_tokens(claimed, rate_scaled) == added
            &&& added == 0 <==> claimed == 0
        }),
{
    let e = elapsed;
    let added = spec_refill_tokens(e, rate_scaled);
    if added != 0 {
        assert(e > 0 && rate_scaled > 0);
        assert(added * 1_000_000_000 <= e * rate_scaled) by (nonlinear_arith)
            requires
                added == (if e * rate_scaled / 1_000_000_000 > u64::MAX {
                    u64::MAX as int
                } else {
                    e * rate_scaled / 1_000_000_000
                }),
                e * rate_scaled >= 0,
        ;
        let num = added * 1_000_000_000 + rate_scaled - 1;
        let c = num / (rate_scaled as int);
        assert(c <= e && c * rate_scaled >= added * 1_000_000_000 && c >= 1) by (nonlinear_arith)
            requires
                c == num / (rate_scaled as int),
                num == added * 1_000_000_000 + rate_scaled - 1,
                added * 1_000_000_000 <= e * rate_scaled,
                rate_scaled > 0,
                added >= 1,
        ;
        assert(spec_nanos_for_tokens(added, rate_scaled) == c);
        assert(rate_scaled * c == c * rate_scaled) by (nonlinear_arith);
        assert(c * rate_scaled / 1_000_000_000 >= added && c * rate_scaled / 1_000_000_000 <= e
            * rate_scaled / 1_000_000_000) by (nonlinear_arith)
            requires
                c * rate_scaled >= added * 1_000_000_000,
                c <= e,
                rate_scaled > 0,
                c >= 0,
        ;
    }
}

/// The claim for `added` scaled tokens is the shortest interval that pays
/// for them: it accrues at least `added`, and one nanosecond less accrues
/// fewer.
pub proof fn lemma_nanos_for_tokens_is_least(added: u64, rate_scaled: u64)
    requires
        added > 0,
        rate_scaled > 0,
        (added * 1_000_000_000 + rate_scaled - 1) / (rate_scaled as int) <= u64::MAX,
    ensures
        ({
            let c = spec_nanos_for_tokens(added, rate_scaled);
            &&& c >= 1
            &&& spec_refill_tokens(c, rate_scaled) >= added
            &&& spec_refill_tokens((c - 1) as u64, rate_scaled) < added
        }),
{
    let num = added * 1_000_000_000 + rate_scaled - 1;
    let c = num / (rate_scaled as int);
    assert(c * rate_scaled >= added * 1_000_000_000 && (c - 1) * rate_scaled < added * 1_000_000_000
        && c >= 1) by (nonlinear_arith)
        requires
            c == num / (rate_scaled as int),
            num == added * 1_000_000_000 + rate_scaled - 1,
            rate_scaled > 0,
            added >= 1,
    ;
    assert(c * rate_scaled / 1_000_000_000 >= added) by (nonlinear_arith)
        requires
            c * rate_scaled >= added * 1_000_000_000,
    ;
    assert((c - 1) * rate_scaled / 1_000_000_000 < added) by (nonlinear_arith)
        requires
            (c - 1) * rate_scaled < added * 1_000_000_000,
            c >= 1,
            rate_scaled > 0,
    ;
}

/// What a claim leaves on the clock accrues less than one scaled token: the
/// time between the end of the claimed interval and the end of the elapsed
/// one is worth less than one scaled token at `rate_scaled`, unless the
/// accrual saturated.
pub proof fn lemma_claim_remainder(elapsed: u64, rate_scaled: u64)
    requires
        elapsed * rate_scaled / 1_000_000_000 <= u64::MAX,
    ensures
        (elapsed - spec_nanos_for_tokens(spec_refill_tokens(elapsed, rate_scaled), rate_scaled))
            * rate_scaled < 1_000_000_000,
{
    lemma_claim_rounding(elapsed, rate_scaled);
    let e = elapsed;
    let a = spec_refill_tokens(e, rate_scaled);
    let c = spec_nanos_for_tokens(a, rate_scaled);
    if rate_scaled == 0 {
        assert((e - c) * rate_scaled == 0) by (nonlinear_arith)
            requires
                rate_scaled == 0,
        ;
    } else if e == 0 {
    } else {
        assert(a == e * rate_scaled / 1_000_000_000);
        assert((e - c) * rate_scaled < 1_000_000_000) by (nonlinear_arith)
            requires
                a == e * rate_scaled / 1_000_000_000,
                1_000_000_000 * a <= rate_scaled * c,
                rate_scaled > 0,
        ;
    }
}

/// A leak drains exactly what its claimed interval accrues: when the leak
/// clock moves forward by `c` nanoseconds, the level falls by
/// `c * rate_scaled / 10^9` scaled tokens (rounded down), or to zero if it
/// held less. The claim never reaches past `now`, and what it leaves on the
/// clock is worth less than one scaled token.
pub proof fn lemma_leak_drains_claimed(s: LeakyState, rate_scaled: u64, now: u64)
    requires
        s.last_leak_nanos <= now,
    ensures
        ({
            let l = s.leaked(rate_scaled, now);
            let c = l.last_leak_nanos - s.last_leak_nanos;
            let drained = c * rate_scaled / 1_000_000_000;
            &&& s.last_leak_nanos <= l.last_leak_nanos <= now
            &&& l.tokens == (if s.tokens >= drained {
                s.tokens - drained
            } else {
                0
            })
            &&& (now - s.last_leak_nanos) * rate_scaled / 1_000_000_000 <= u64::MAX ==> (now
                - l.last_leak_nanos) * rate_scaled < 1_000_000_000
        }),
{
    let e = (now - s.last_leak_nanos) as u64;
    lemma_claim_rounding(e, rate_scaled);
    let out = spec_refill_tokens(e, rate_scaled);
    let c = spec_nanos_for_tokens(out, rate_scaled);
    if e * rate_scaled / 1_000_000_000 <= u64::MAX {
        lemma_claim_remainder(e, rate_scaled);
    }
    assert(c * rate_scaled >= 0) by (nonlinear_arith)
        requires
            c >= 0,
            rate_scaled >= 0,
    ;
    if c * rate_scaled / 1_000_000_000 > u64::MAX {
        assert(out == u64::MAX);
    }
}

/// Crediting a probabilistic refill adds at most what the claimed interval
/// accrues; the claim never reaches past `now`.
pub proof fn lemma_probabilistic_refill_credit(s: ProbabilisticState, capacity_scaled: i64, rate_scaled: u64, now: u64)
    requires
        s.last_refill_nanos <= now,
    ensures
        s.last_refill_nanos <= s.refilled(capacity_scaled, rate_scaled, now).last_refill_nanos <= now,
        1_000_000_000 * (s.refilled(capacity_scaled, rate_scaled, now).tokens - s.tokens) <= rate_scaled
            * (s.refilled(capacity_scaled, rate_scaled, now).last_refill_nanos
            - s.last_refill_nanos),
{
    let e = (now - s.last_refill_nanos) as u64;
    lemma_claim_rounding(e, rate_scaled);
    let added = spec_refill_tokens(e, rate_scaled);
    let c = spec_nanos_for_tokens(added, rate_scaled);
    let r = s.refilled(capacity_scaled, rate_scaled, now);
    if added != 0 {
        assert(r.last_refill_nanos == s.last_refill_nanos + c);
        assert(r.tokens - s.tokens <= added);
        assert(1_000_000_000 * (r.tokens - s.tokens) <= rate_scaled * (r.last_refill_nanos
            - s.last_refill_nanos)) by (nonlinear_arith)
            requires
                r.tokens - s.tokens <= added,
                1_000_000_000 * added <= rate_scaled * c,
                r.last_refill_nanos - s.last_refill_nanos == c,
        ;
    }
}

/// Every probabilistic check, sampled or not and at any sample rate, gains
/// no more tokens than its refill clock advanced by: no nanosecond is
/// credited twice. The clock never moves past `now`.
pub proof fn lemma_probabilistic_claims_what_it_credits(
    p: ProbabilisticState,
    capacity: u64,
    refill_rate_per_second: u64,
    now: u64,
    cost: u64,
    sample_rate: u32,
    track_access: bool,
    rng: u64,
)
    requires
        p.last_refill_nanos <= now,
    ensures
        ({
            let (p2, _, _, _) = p.probabilistic(
                capacity,
                refill_rate_per_second,
                now,
                cost,
                sample_rate,
                track_access,
                rng,
            );
            let r = sat_mul(refill_rate_per_second, SCALE);
            &&& p.last_refill_nanos <= p2.last_refill_nanos <= now
            &&& 1_000_000_000 * (p2.tokens - p.tokens) <= r * (p2.last_refill_nanos - p.last_refill_nanos)
        }),
{
    let s0 = if track_access {
        ProbabilisticState { last_access_nanos: now, ..p }
    } else {
        p
    };
    let cap_s = spec_scaled(capacity);
    let r = sat_mul(refill_rate_per_second, SCALE);
    lemma_probabilistic_refill_credit(s0, cap_s, r, now);
    let s1 = ProbabilisticState { request_tick: s0.request_tick.wrapping_add(1), ..s0 };
    lemma_probabilistic_refill_credit(s1, cap_s, r, now);
    assert(spec_scaled(cost) >= 0);
}

/// The state of one probabilistic key after a run of `(time, cost)`
/// requests, and the generator state after it.
pub open spec fn probabilistic_key_run(
    p: ProbabilisticState,
    capacity: u64,
    refill_rate_per_second: u64,
    sample_rate: u32,
    track_access: bool,
    rng: u64,
    requests: Seq<(u64, u64)>,
) -> (ProbabilisticState, u64)
    decreases requests.len(),
{
    if requests.len() == 0 {
        (p, rng)
    } else {
        let (before, rng0) = probabilistic_key_run(
            p,
            capacity,
            refill_rate_per_second,
            sample_rate,
            track_access,
            rng,
            requests.drop_last(),
        );
        let (t, cost) = requests.last();
        let (after, _, _, rng1) = before.probabilistic(
            capacity,
            refill_rate_per_second,
            t,
            cost,
            sample_rate,
            track_access,
            rng0,
        );
        (after, rng1)
    }
}

/// Over any run of probabilistic requests on one key at non-decreasing
/// times, at any sample rate, the key gains at most what the refill rate
/// accrues between its first and last refill clock, which never passes the
/// last request: refill is never credited twice, whatever is sampled.
pub proof fn lemma_probabilistic_run_credit(
    p: ProbabilisticState,
    capacity: u64,
    refill_rate_per_second: u64,
    sample_rate: u32,
    track_access: bool,
    rng: u64,
    requests: Seq<(u64, u64)>,
)
    requires
        times_from(p.last_refill_nanos, requests),
    ensures
        ({
            let (after, _) = probabilistic_key_run(
                p,
                capacity,
                refill_rate_per_second,
                sample_rate,
                track_access,
                rng,
                requests,
            );
            let r = sat_mul(refill_rate_per_second, SCALE);
            &&& p.last_refill_nanos <= after.last_refill_nanos
            &&& requests.len() > 0 ==> after.last_refill_nanos <= requests.last().0
            &&& 1_000_000_000 * (after.tokens - p.tokens) <= r * (after.last_refill_nanos
                - p.last_refill_nanos)
        }),
    decreases requests.len(),
{
    let r = sat_mul(refill_rate_per_second, SCALE);
    if requests.len() > 0 {
        let prefix = requests.drop_last();
        assert(times_from(p.last_refill_nanos, prefix)) by {
            assert forall|i: int, j: int| 0 <= i <= j < prefix.len() implies #[trigger] prefix[i].0
                <= #[trigger] prefix[j].0 by {
                assert(prefix[i] == requests[i] && prefix[j] == requests[j]);
            }
            assert forall|i: int| 0 <= i < prefix.len() implies p.last_refill_nanos
                <= #[trigger] prefix[i].0 by {
                assert(prefix[i] == requests[i]);
            }
        }
        lemma_probabilistic_run_credit(
            p,
            capacity,
            refill_rate_per_second,
            sample_rate,
            track_access,
            rng,
            prefix,
        );
        let (before, rng0) = probabilistic_key_run(
            p,
            capacity,
            refill_rate_per_second,
            sample_rate,
            track_access,
            rng,
            prefix,
        );
        let (t, cost) = requests.last();
        assert(before.last_refill_nanos <= t) by {
            if prefix.len() > 0 {
                assert(prefix.last() == requests[prefix.len() - 1]);
                assert(requests[prefix.len() - 1].0 <= requests[requests.len() - 1].0);
            } else {
                assert(p.last_refill_nanos <= requests[requests.len() - 1].0);
            }
        }
        lemma_probabilistic_claims_what_it_credits(
            before,
            capacity,
            refill_rate_per_second,
            t,
            cost,
            sample_rate,
            track_access,
            rng0,
        );
        let (after, _) = probabilistic_key_run(
            p,
            capacity,
            refill_rate_per_second,
            sample_rate,
            track_access,
            rng,
            requests,
        );
        assert(r * (after.last_refill_nanos - before.last_refill_nanos) + r * (before.last_refill_nanos
            - p.last_refill_nanos) == r * (after.last_refill_nanos - p.last_refill_nanos))
            by (nonlinear_arith);
    }
}

/// Crediting a refill adds at most the tokens the claimed interval accrues;
/// the claimed interval never reaches past `now`.
pub proof fn lemma_refill_credit(s: TokenState, capacity_scaled: u64, rate_scaled: u64, now: u64)
    requires
        s.last_refill_nanos <= now,
    ensures
        s.last_refill_nanos <= s.refilled(capacity_scaled, rate_scaled, now).last_refill_nanos <= now,
        1_000_000_000 * (s.refilled(capacity_scaled, rate_scaled, now).tokens - s.tokens) <= rate_scaled
            * (s.refilled(capacity_scaled, rate_scaled, now).last_refill_nanos
            - s.last_refill_nanos),
        s.tokens <= capacity_scaled ==> s.refilled(capacity_scaled, rate_scaled, now).tokens
            <= capacity_scaled,
{
    let e = (now - s.last_refill_nanos) as u64;
    lemma_claim_rounding(e, rate_scaled);
    let added = spec_refill_tokens(e, rate_scaled);
    let c = spec_nanos_for_tokens(added, rate_scaled);
    let r = s.refilled(capacity_scaled, rate_scaled, now);
    if added != 0 {
        assert(r.last_refill_nanos == s.last_refill_nanos + c);
        assert(r.tokens <= s.tokens + added);
        assert(1_000_000_000 * (r.tokens - s.tokens) <= rate_scaled * (r.last_refill_nanos
            - s.last_refill_nanos)) by (nonlinear_arith)
            requires
                r.tokens <= s.tokens + added,
                1_000_000_000 * added <= rate_scaled * c,
                r.last_refill_nanos - s.last_refill_nanos == c,
        ;
    }
}

/// A single token-bucket request: the tokens it leaves plus the tokens it
/// takes exceed what the bucket held by at most what the claimed refill
/// interval accrues.
pub proof fn lemma_consume_credit(s: TokenState, capacity: u64, refill_rate_per_second: u64, now: u64, cost: u64)
    requires
        s.last_refill_nanos <= now,
    ensures
        ({
            let (after, permitted, _) = s.consumed(capacity, refill_rate_per_second, now, cost);
            let r = sat_mul(refill_rate_per_second, SCALE);
            &&& s.last_refill_nanos <= after.last_refill_nanos <= now
            &&& 1_000_000_000 * (after.tokens + taken(permitted, cost) - s.tokens) <= r * (
            after.last_refill_nanos - s.last_refill_nanos)
            &&& s.tokens <= sat_mul(capacity, SCALE) ==> after.tokens <= sat_mul(capacity, SCALE)
        }),
{
    let touched = TokenState { last_access_nanos: now, ..s };
    lemma_refill_credit(
        touched,
        sat_mul(capacity, SCALE),
        sat_mul(refill_rate_per_second, SCALE),
        now,
    );
}

/// Token-bucket admission bound: over any run of requests on one key at
/// non-decreasing times, starting no earlier than the key's last refill, the
/// tokens taken never exceed what the bucket held plus what the refill rate
/// accrues over the elapsed time.
pub proof fn lemma_token_admission_bound(
    s: TokenState,
    capacity: u64,
    refill_rate_per_second: u64,
    requests: Seq<(u64, u64)>,
)
    requires
        times_from(s.last_refill_nanos, requests),
    ensures
        ({
            let (after, took) = token_run(s, capacity, refill_rate_per_second, requests);
            let r = sat_mul(refill_rate_per_second, SCALE);
            &&& s.last_refill_nanos <= after.last_refill_nanos
            &&& requests.len() > 0 ==> after.last_refill_nanos <= requests.last().0
            &&& 1_000_000_000 * (after.tokens + took) <= 1_000_000_000 * s.tokens + r * (
            after.last_refill_nanos - s.last_refill_nanos)
            &&& requests.len() > 0 ==> 1_000_000_000 * took <= 1_000_000_000 * s.tokens + r * (
            requests.last().0 - s.last_refill_nanos)
        }),
    decreases requests.len(),
{
    let r = sat_mul(refill_rate_per_second, SCALE);
    if requests.len() > 0 {
        let prefix = requests.drop_last();
        assert(times_from(s.last_refill_nanos, prefix)) by {
            assert forall|i: int, j: int| 0 <= i <= j < prefix.len() implies #[trigger] prefix[i].0
                <= #[trigger] prefix[j].0 by {
                assert(prefix[i] == requests[i] && prefix[j] == requests[j]);
            }
            assert forall|i: int| 0 <= i < prefix.len() implies s.last_refill_nanos
                <= #[trigger] prefix[i].0 by {
                assert(prefix[i] == requests[i]);
            }
        }
        lemma_token_admission_bound(s, capacity, refill_rate_per_second, prefix);
        let (before, took_before) = token_run(s, capacity, refill_rate_per_second, prefix);
        let (t, cost) = requests.last();
        assert(before.last_refill_nanos <= t) by {
            if prefix.len() > 0 {
                assert(prefix.last() == requests[prefix.len() - 1]);
                assert(requests[prefix.len() - 1].0 <= requests[requests.len() - 1].0);
            } else {
                assert(s.last_refill_nanos <= requests[requests.len() - 1].0);
            }
        }
        lemma_consume_credit(before, capacity, refill_rate_per_second, t, cost);
        let (after, permitted, _) = before.consumed(capacity, refill_rate_per_second, t, cost);
        assert(r * (after.last_refill_nanos - before.last_refill_nanos) + r * (before.last_refill_nanos
            - s.last_refill_nanos) == r * (after.last_refill_nanos - s.last_refill_nanos))
            by (nonlinear_arith);
        assert(after.tokens >= 0);
        assert(r * (after.last_refill_nanos - s.last_refill_nanos) <= r * (t - s.last_refill_nanos))
            by (nonlinear_arith)
            requires
                after.last_refill_nanos <= t,
                r >= 0,
        ;
    }
}

/// The whole tokens that the permitted requests of a token-bucket run ask
/// for (the sum of their costs).
pub open spec fn token_admitted(
    s: TokenState,
    capacity: u64,
    refill_rate_per_second: u64,
    requests: Seq<(u64, u64)>,
) -> int
    decreases requests.len(),
{
    if requests.len() == 0 {
        0
    } else {
        let (before, _) = token_run(s, capacity, refill_rate_per_second, requests.drop_last());
        let (t, cost) = requests.last();
        let (_, permitted, _) = before.consumed(capacity, refill_rate_per_second, t, cost);
        token_admitted(s, capacity, refill_rate_per_second, requests.drop_last()) + if permitted {
            cost as int
        } else {
            0
        }
    }
}

/// Over a run on a key within capacity, the scaled tokens taken are exactly
/// the admitted costs, scaled, and the key stays within capacity.
pub proof fn lemma_token_taken_whole(
    s: TokenState,
    capacity: u64,
    refill_rate_per_second: u64,
    requests: Seq<(u64, u64)>,
)
    requires
        capacity <= MAX_BURST,
        s.tokens <= sat_mul(capacity, SCALE),
    ensures
        token_run(s, capacity, refill_rate_per_second, requests).0.tokens <= sat_mul(capacity, SCALE),
        token_run(s, capacity, refill_rate_per_second, requests).1 == 1000 * token_admitted(
            s,
            capacity,
            refill_rate_per_second,
            requests,
        ),
    decreases requests.len(),
{
    if requests.len() > 0 {
        let prefix = requests.drop_last();
        lemma_token_taken_whole(s, capacity, refill_rate_per_second, prefix);
        let (before, _) = token_run(s, capacity, refill_rate_per_second, prefix);
        let (t, cost) = requests.last();
        lemma_token_capacity_kept(before, capacity, refill_rate_per_second, t, cost);
        assert(sat_mul(capacity, SCALE) == capacity * 1000) by (nonlinear_arith)
            requires
                capacity <= MAX_BURST,
        ;
        let (_, permitted, _) = before.consumed(capacity, refill_rate_per_second, t, cost);
        if permitted {
            let r = TokenState { last_access_nanos: t, ..before }.refilled(
                sat_mul(capacity, SCALE),
                sat_mul(refill_rate_per_second, SCALE),
                t,
            );
            assert(r.tokens <= sat_mul(capacity, SCALE));
            assert(sat_mul(cost, SCALE) == cost * 1000) by (nonlinear_arith)
                requires
                    sat_mul(cost, SCALE) <= capacity * 1000,
                    capacity <= MAX_BURST,
                    sat_mul(cost, SCALE) == (if cost * 1000 > u64::MAX {
                        u64::MAX as int
                    } else {
                        cost * 1000
                    }),
            ;
        }
    }
}

/// A new token-bucket key admits, over any run of requests at
/// non-decreasing times from its creation at `t0` to `tn`, requests whose
/// costs add up to at most the capacity plus the rate times the elapsed
/// seconds, rounded down: bursts up to capacity, then at most the refill
/// rate.
pub proof fn lemma_token_fresh_key_bound(capacity: u64, refill_rate_per_second: u64, t0: u64, requests: Seq<(u64, u64)>)
    requires
        capacity <= MAX_BURST,
        refill_rate_per_second <= MAX_RATE_PER_SEC,
        times_from(t0, requests),
        requests.len() > 0,
    ensures
        token_admitted(TokenState::spec_new(capacity, t0), capacity, refill_rate_per_second, requests)
            <= capacity + refill_rate_per_second * (requests.last().0 - t0) / 1_000_000_000,
{
    let s = TokenState::spec_new(capacity, t0);
    assert(sat_mul(capacity, SCALE) == capacity * 1000) by (nonlinear_arith)
        requires
            capacity <= MAX_BURST,
    ;
    assert(sat_mul(refill_rate_per_second, SCALE) == refill_rate_per_second * 1000) by (nonlinear_arith)
        requires
            refill_rate_per_second <= MAX_RATE_PER_SEC,
    ;
    lemma_token_admission_bound(s, capacity, refill_rate_per_second, requests);
    lemma_token_taken_whole(s, capacity, refill_rate_per_second, requests);
    let a = token_admitted(s, capacity, refill_rate_per_second, requests);
    let d = requests.last().0 - t0;
    assert(d >= 0) by {
        assert(t0 <= requests[requests.len() - 1].0);
    }
    let rate = refill_rate_per_second;
    assert(a <= capacity + rate * d / 1_000_000_000) by (nonlinear_arith)
        requires
            1_000_000_000 * (1000 * a) <= 1_000_000_000 * (capacity * 1000) + (rate * 1000) * d,
            d >= 0,
            rate >= 0,
    ;
}

/// Token-bucket burst bound: when no time passes after the key's last
/// refill, the requests take at most the tokens the bucket held.
pub proof fn lemma_token_burst_bound(
    s: TokenState,
    capacity: u64,
    refill_rate_per_second: u64,
    requests: Seq<(u64, u64)>,
)
    requires
        forall|i: int| 0 <= i < requests.len() ==> #[trigger] requests[i].0 == s.last_refill_nanos,
    ensures
        ({
            let (after, took) = token_run(s, capacity, refill_rate_per_second, requests);
            &&& after.last_refill_nanos == s.last_refill_nanos
            &&& after.tokens + took == s.tokens
        }),
    decreases requests.len(),
{
    if requests.len() > 0 {
        let prefix = requests.drop_last();
        assert forall|i: int| 0 <= i < prefix.len() implies #[trigger] prefix[i].0
            == s.last_refill_nanos by {
            assert(prefix[i] == requests[i]);
        }
        lemma_token_burst_bound(s, capacity, refill_rate_per_second, prefix);
        assert(requests.last().0 == s.last_refill_nanos);
        assert(spec_refill_tokens(0, sat_mul(refill_rate_per_second, SCALE)) == 0);
    }
}

/// A token-bucket key never holds more than its capacity: a request on a
/// key within capacity leaves it within capacity.
pub proof fn lemma_token_capacity_kept(
    s: TokenState,
    capacity: u64,
    refill_rate_per_second: u64,
    now: u64,
    cost: u64,
)
    requires
        s.tokens <= sat_mul(capacity, SCALE),
    ensures
        s.consumed(capacity, refill_rate_per_second, now, cost).0.tokens <= sat_mul(capacity, SCALE),
{
}

/// A token-bucket request is permitted exactly when the refilled bucket
/// holds its scaled cost, and then takes exactly that cost.
pub proof fn lemma_token_permits_iff_covered(
    s: TokenState,
    capacity: u64,
    refill_rate_per_second: u64,
    now: u64,
    cost: u64,
)
    ensures
        ({
            let refilled = TokenState { last_access_nanos: now, ..s }.refilled(
                sat_mul(capacity, SCALE),
                sat_mul(refill_rate_per_second, SCALE),
                now,
            );
            let (after, permitted, remaining) = s.consumed(capacity, refill_rate_per_second, now, cost);
            &&& permitted <==> refilled.tokens >= sat_mul(cost, SCALE)
            &&& permitted ==> after.tokens == refilled.tokens - sat_mul(cost, SCALE)
            &&& !permitted ==> after.tokens == refilled.tokens
            &&& remaining == after.tokens / SCALE
        }),
{
}

/// A check with cost 0 is denied without touching any state.
pub proof fn lemma_token_zero_cost(v: TokenBucketView, key: Seq<char>, now: u64)
    ensures
        token_bucket_step(v, key, 0, now) == (v, spec_zero_cost_decision(v.capacity)),
{
}

/// A token-bucket check on one key leaves every other key as it was, when no
/// TTL is configured (with a TTL, a sampled sweep may also drop idle keys).
pub proof fn lemma_token_key_isolation(v: TokenBucketView, key: Seq<char>, cost: u64, now: u64, other: Seq<char>)
    requires
        v.idle_ttl is None,
        other != key,
    ensures
        token_bucket_step(v, key, cost, now).0.states.contains_key(other) == v.states.contains_key(other),
        v.states.contains_key(other) ==> token_bucket_step(v, key, cost, now).0.states[other]
            == v.states[other],
{
}

/// A new key starts with a full bucket: its first request of at most the
/// capacity is permitted.
pub proof fn lemma_token_new_key_full(v: TokenBucketView, key: Seq<char>, cost: u64, now: u64)
    requires
        v.idle_ttl is None,
        !v.states.contains_key(key),
        0 < cost <= v.capacity,
        v.capacity <= u64::MAX / 1000,
    ensures
        token_bucket_step(v, key, cost, now).1.permitted,
{
    assert(cost * 1000 <= v.capacity * 1000) by (nonlinear_arith)
        requires
            cost <= v.capacity,
    ;
    assert(v.capacity * 1000 <= u64::MAX) by (nonlinear_arith)
        requires
            v.capacity <= u64::MAX / 1000,
    ;
}

/// Waiting out a denial works: when a request of at most the capacity is
/// denied at `t` with retry delay `w`, the same request on the same key is
/// permitted at any time after `t + w`, if nothing else used the key
/// meanwhile. (The delay is rounded down to whole nanoseconds, so the
/// request may still fall short at exactly `t + w`.)
pub proof fn lemma_token_retry_after_suffices(
    s: TokenState,
    capacity: u64,
    refill_rate_per_second: u64,
    t: u64,
    cost: u64,
    later: u64,
)
    requires
        0 < refill_rate_per_second <= MAX_RATE_PER_SEC,
        capacity <= MAX_BURST,
        0 < cost <= capacity,
        s.last_refill_nanos <= t,
        ({
            let (_, permitted, remaining) = s.consumed(capacity, refill_rate_per_second, t, cost);
            let d = spec_token_decision(permitted, remaining, capacity, refill_rate_per_second, cost);
            &&& !permitted
            &&& d.retry_after matches Some(w) && t + w < later
        }),
    ensures
        s.consumed(capacity, refill_rate_per_second, t, cost).0.consumed(
            capacity,
            refill_rate_per_second,
            later,
            cost,
        ).1,
{
    let rate = refill_rate_per_second;
    assert(sat_mul(capacity, SCALE) == capacity * 1000) by (nonlinear_arith)
        requires
            capacity <= MAX_BURST,
    ;
    assert(sat_mul(rate, SCALE) == rate * 1000) by (nonlinear_arith)
        requires
            rate <= MAX_RATE_PER_SEC,
    ;
    assert(sat_mul(cost, SCALE) == cost * 1000) by (nonlinear_arith)
        requires
            cost <= capacity <= MAX_BURST,
    ;
    assert(cost * 1000 <= capacity * 1000) by (nonlinear_arith)
        requires
            cost <= capacity,
    ;
    let big_r = sat_mul(rate, SCALE);
    let touched = TokenState { last_access_nanos: t, ..s };
    lemma_refill_credit(touched, sat_mul(capacity, SCALE), big_r, t);
    let (s1, permitted, remaining) = s.consumed(capacity, rate, t, cost);
    assert(s1.tokens < cost * 1000);
    assert(s1.last_refill_nanos <= t);
    assert(remaining == s1.tokens / 1000);
    assert(remaining * 1000 <= s1.tokens) by (nonlinear_arith)
        requires
            remaining == s1.tokens / 1000,
    ;
    assert(remaining < cost) by (nonlinear_arith)
        requires
            remaining * 1000 <= s1.tokens,
            s1.tokens < cost * 1000,
    ;
    let needed = (cost - remaining) as u64;
    let w = spec_wait_for_tokens(needed, rate);
    let q = needed * 1_000_000_000 / (rate as int);
    assert(w >= q);
    assert((q + 1) * rate > needed * 1_000_000_000) by (nonlinear_arith)
        requires
            q == needed * 1_000_000_000 / (rate as int),
            rate > 0,
    ;
    let e = (later - s1.last_refill_nanos) as u64;
    assert(e >= q + 1);
    assert(e * big_r / 1_000_000_000 >= needed * 1000) by (nonlinear_arith)
        requires
            e >= q + 1,
            (q + 1) * rate > needed * 1_000_000_000,
            big_r == rate * 1000,
            q >= 0,
            rate > 0,
    ;
    let added = spec_refill_tokens(e, big_r);
    assert(added >= needed * 1000);
    assert(s1.tokens + needed * 1000 >= cost * 1000);
}

/// Waiting out a denial works for a token bucket: when a check of at most
/// the capacity is denied at `t` with retry delay `w`, the same check on the
/// same key is permitted at any time after `t + w`, if no other check used
/// the key meanwhile. With a TTL the key may be swept in between; it then
/// starts again full.
pub proof fn lemma_token_bucket_retry_after(v: TokenBucketView, key: Seq<char>, cost: u64, t: u64, later: u64)
    requires
        v.capacity <= MAX_BURST,
        0 < v.refill_rate_per_second <= MAX_RATE_PER_SEC,
        0 < cost <= v.capacity,
        v.states.contains_key(key) ==> v.states[key].last_refill_nanos <= t,
        ({
            let d = token_bucket_step(v, key, cost, t).1;
            &&& !d.permitted
            &&& d.retry_after matches Some(w) && t + w < later
        }),
    ensures
        token_bucket_step(token_bucket_step(v, key, cost, t).0, key, cost, later).1.permitted,
{
    let (rng, sweep) = crate::algorithm::token_bucket::cleanup_draw(v.idle_ttl, v.rng);
    let states = crate::algorithm::token_bucket::swept(v.states, v.idle_ttl, sweep, t);
    let current = if states.contains_key(key) {
        states[key]
    } else {
        TokenState::spec_new(v.capacity, t)
    };
    lemma_token_retry_after_suffices(current, v.capacity, v.refill_rate_per_second, t, cost, later);
    let v1 = token_bucket_step(v, key, cost, t).0;
    let (rng2, sweep2) = crate::algorithm::token_bucket::cleanup_draw(v1.idle_ttl, v1.rng);
    let states2 = crate::algorithm::token_bucket::swept(v1.states, v1.idle_ttl, sweep2, later);
    if !states2.contains_key(key) {
        assert(sat_mul(v.capacity, SCALE) == v.capacity * 1000) by (nonlinear_arith)
            requires
                v.capacity <= MAX_BURST,
        ;
        assert(sat_mul(cost, SCALE) == cost * 1000) by (nonlinear_arith)
            requires
                cost <= v.capacity <= MAX_BURST,
        ;
        assert(cost * 1000 <= v.capacity * 1000) by (nonlinear_arith)
            requires
                cost <= v.capacity,
        ;
    }
}

/// Whether every key of a token bucket holds at most its capacity.
pub open spec fn token_levels_within(v: TokenBucketView) -> bool {
    forall|k: Seq<char>| #[trigger] v.states.contains_key(k) ==> v.states[k].tokens <= sat_mul(v.capacity, SCALE)
}

/// Every token-bucket check keeps every key within capacity.
pub proof fn lemma_token_step_keeps_levels(v: TokenBucketView, key: Seq<char>, cost: u64, now: u64)
    requires
        token_levels_within(v),
    ensures
        token_levels_within(token_bucket_step(v, key, cost, now).0),
{
    if cost != 0 {
        let (rng, sweep) = crate::algorithm::token_bucket::cleanup_draw(v.idle_ttl, v.rng);
        let states = crate::algorithm::token_bucket::swept(v.states, v.idle_ttl, sweep, now);
        let current = if states.contains_key(key) {
            states[key]
        } else {
            TokenState::spec_new(v.capacity, now)
        };
        lemma_token_capacity_kept(current, v.capacity, v.refill_rate_per_second, now, cost);
        let v1 = token_bucket_step(v, key, cost, now).0;
        assert forall|k: Seq<char>| #[trigger] v1.states.contains_key(k) implies v1.states[k].tokens
            <= sat_mul(v1.capacity, SCALE) by {
            if k != key {
                assert(v.states.contains_key(k));
            }
        }
    }
}

/// Every token-bucket decision is shaped the same way: a denied request
/// carries a retry delay of at least one millisecond, a permitted one none;
/// the remaining count and the limit are always reported.
pub proof fn lemma_token_decision_shape(permitted: bool, remaining: u64, limit: u64, rate: u64, cost: u64)
    ensures
        ({
            let d = spec_token_decision(permitted, remaining, limit, rate, cost);
            &&& d.permitted == permitted
            &&& d.remaining == Some(remaining)
            &&& d.limit == limit
            &&& permitted <==> d.retry_after is None
            &&& d.retry_after matches Some(w) ==> w >= 1_000_000
            &&& rate > 0 ==> d.reset is Some
        }),
{
}

/// The state of one key after a run of leaky-bucket requests, given as
/// `(time, cost)` pairs, and the scaled tokens the permitted ones added.
pub open spec fn leaky_run(s: LeakyState, capacity: u64, leak_rate_per_second: u64, requests: Seq<(u64, u64)>) -> (
    LeakyState,
    int,
)
    decreases requests.len(),
{
    if requests.len() == 0 {
        (s, 0)
    } else {
        let (before, added_before) = leaky_run(s, capacity, leak_rate_per_second, requests.drop_last());
        let (t, cost) = requests.last();
        let (after, permitted, _) = before.added(capacity, leak_rate_per_second, t, cost);
        (after, added_before + taken(permitted, cost))
    }
}

/// A leaky-bucket key never holds more than its capacity: a request on a key
/// within capacity leaves it within capacity, and is permitted exactly when
/// the leaked level plus its scaled cost fits.
pub proof fn lemma_leaky_level_kept(s: LeakyState, capacity: u64, leak_rate_per_second: u64, now: u64, cost: u64)
    requires
        capacity <= MAX_CAPACITY,
        s.tokens <= sat_mul(capacity, SCALE),
    ensures
        ({
            let leaked = LeakyState { last_access_nanos: now, ..s }.leaked(
                sat_mul(leak_rate_per_second, SCALE),
                now,
            );
            let (after, permitted, _) = s.added(capacity, leak_rate_per_second, now, cost);
            &&& after.tokens <= sat_mul(capacity, SCALE)
            &&& permitted <==> leaked.tokens + sat_mul(cost, SCALE) <= sat_mul(capacity, SCALE)
        }),
{
    assert(sat_mul(capacity, SCALE) == capacity * SCALE) by (nonlinear_arith)
        requires
            capacity <= MAX_CAPACITY,
    ;
}

/// A single leaky-bucket request: what it adds, less the rise of the level,
/// is at most what leaks over the claimed interval.
pub proof fn lemma_leak_credit(s: LeakyState, capacity: u64, leak_rate_per_second: u64, now: u64, cost: u64)
    requires
        capacity <= MAX_CAPACITY,
        s.last_leak_nanos <= now,
    ensures
        ({
            let (after, permitted, _) = s.added(capacity, leak_rate_per_second, now, cost);
            let r = sat_mul(leak_rate_per_second, SCALE);
            &&& s.last_leak_nanos <= after.last_leak_nanos <= now
            &&& 1_000_000_000 * (taken(permitted, cost) + s.tokens - after.tokens) <= r * (
            after.last_leak_nanos - s.last_leak_nanos)
        }),
{
    let r = sat_mul(leak_rate_per_second, SCALE);
    let e = (now - s.last_leak_nanos) as u64;
    lemma_claim_rounding(e, r);
    let out = spec_refill_tokens(e, r);
    let c = crate::algorithm::internal::spec_nanos_for_tokens(out, r);
    let touched = LeakyState { last_access_nanos: now, ..s };
    let l = touched.leaked(r, now);
    assert(sat_mul(capacity, SCALE) == capacity * SCALE) by (nonlinear_arith)
        requires
            capacity <= MAX_CAPACITY,
    ;
    assert(l.tokens <= s.tokens);
    assert(s.last_leak_nanos <= l.last_leak_nanos <= now);
    if out != 0 {
        assert(l.last_leak_nanos == s.last_leak_nanos + c);
        assert(s.tokens - l.tokens <= out);
        assert(1_000_000_000 * (s.tokens - l.tokens) <= r * (l.last_leak_nanos - s.last_leak_nanos))
            by (nonlinear_arith)
            requires
                s.tokens - l.tokens <= out,
                1_000_000_000 * out <= r * c,
                l.last_leak_nanos - s.last_leak_nanos == c,
        ;
    }
}

/// Leaky-bucket admission bound: over any run of requests on one key at
/// non-decreasing times, starting no earlier than the key's last leak, the
/// tokens added never exceed the room the bucket had plus what leaks over
/// the elapsed time. A new key starts empty, so it admits at most its capacity plus
/// the leak rate times the elapsed time.
pub proof fn lemma_leaky_admission_bound(
    s: LeakyState,
    capacity: u64,
    leak_rate_per_second: u64,
    requests: Seq<(u64, u64)>,
)
    requires
        capacity <= MAX_CAPACITY,
        times_from(s.last_leak_nanos, requests),
        s.tokens <= sat_mul(capacity, SCALE),
    ensures
        ({
            let (after, took) = leaky_run(s, capacity, leak_rate_per_second, requests);
            let r = sat_mul(leak_rate_per_second, SCALE);
            &&& s.last_leak_nanos <= after.last_leak_nanos
            &&& after.tokens <= sat_mul(capacity, SCALE)
            &&& requests.len() > 0 ==> after.last_leak_nanos <= requests.last().0
            &&& 1_000_000_000 * (took + s.tokens - after.tokens) <= r * (after.last_leak_nanos
                - s.last_leak_nanos)
            &&& requests.len() > 0 ==> 1_000_000_000 * took <= 1_000_000_000 * (sat_mul(capacity, SCALE)
                - s.tokens) + r * (requests.last().0 - s.last_leak_nanos)
        }),
    decreases requests.len(),
{
    let r = sat_mul(leak_rate_per_second, SCALE);
    if requests.len() > 0 {
        let prefix = requests.drop_last();
        assert(times_from(s.last_leak_nanos, prefix)) by {
            assert forall|i: int, j: int| 0 <= i <= j < prefix.len() implies #[trigger] prefix[i].0
                <= #[trigger] prefix[j].0 by {
                assert(prefix[i] == requests[i] && prefix[j] == requests[j]);
            }
            assert forall|i: int| 0 <= i < prefix.len() implies s.last_leak_nanos
                <= #[trigger] prefix[i].0 by {
                assert(prefix[i] == requests[i]);
            }
        }
        lemma_leaky_admission_bound(s, capacity, leak_rate_per_second, prefix);
        let (before, took_before) = leaky_run(s, capacity, leak_rate_per_second, prefix);
        let (t, cost) = requests.last();
        assert(before.last_leak_nanos <= t) by {
            if prefix.len() > 0 {
                assert(prefix.last() == requests[prefix.len() - 1]);
                assert(requests[prefix.len() - 1].0 <= requests[requests.len() - 1].0);
            } else {
                assert(s.last_leak_nanos <= requests[requests.len() - 1].0);
            }
        }
        lemma_leak_credit(before, capacity, leak_rate_per_second, t, cost);
        lemma_leaky_level_kept(before, capacity, leak_rate_per_second, t, cost);
        let (after, permitted, _) = before.added(capacity, leak_rate_per_second, t, cost);
        assert(r * (after.last_leak_nanos - before.last_leak_nanos) + r * (before.last_leak_nanos
            - s.last_leak_nanos) == r * (after.last_leak_nanos - s.last_leak_nanos))
            by (nonlinear_arith);
        assert(r * (after.last_leak_nanos - s.last_leak_nanos) <= r * (t - s.last_leak_nanos))
            by (nonlinear_arith)
            requires
                after.last_leak_nanos <= t,
                r >= 0,
        ;
    }
}

/// Waiting out a leaky-bucket denial works: when a request of at most the
/// capacity is denied at `t` with retry delay `w`, on a key within capacity,
/// the same request is permitted at any time after `t + w`, if nothing else
/// used the key meanwhile.
pub proof fn lemma_leaky_retry_after_suffices(
    s: LeakyState,
    capacity: u64,
    leak_rate_per_second: u64,
    t: u64,
    cost: u64,
    later: u64,
)
    requires
        0 < leak_rate_per_second <= MAX_LEAK_RATE,
        capacity <= MAX_CAPACITY,
        0 < cost <= capacity,
        s.last_leak_nanos <= t,
        s.tokens <= sat_mul(capacity, SCALE),
        ({
            let (_, permitted, remaining) = s.added(capacity, leak_rate_per_second, t, cost);
            let d = spec_leaky_decision(permitted, remaining, capacity, leak_rate_per_second, cost);
            &&& !permitted
            &&& d.retry_after matches Some(w) && t + w < later
        }),
    ensures
        s.added(capacity, leak_rate_per_second, t, cost).0.added(
            capacity,
            leak_rate_per_second,
            later,
            cost,
        ).1,
{
    let rate = leak_rate_per_second;
    assert(sat_mul(capacity, SCALE) == capacity * 1000) by (nonlinear_arith)
        requires
            capacity <= MAX_CAPACITY,
    ;
    assert(sat_mul(rate, SCALE) == rate * 1000) by (nonlinear_arith)
        requires
            rate <= MAX_LEAK_RATE,
    ;
    assert(sat_mul(cost, SCALE) == cost * 1000) by (nonlinear_arith)
        requires
            cost <= capacity <= MAX_CAPACITY,
    ;
    assert(cost * 1000 <= capacity * 1000) by (nonlinear_arith)
        requires
            cost <= capacity,
    ;
    let big_r = sat_mul(rate, SCALE);
    lemma_leak_credit(s, capacity, rate, t, cost);
    let (s1, _, _) = s.added(capacity, rate, t, cost);
    assert(s1.last_leak_nanos <= t);
    assert(s1.tokens <= s.tokens);
    let w = spec_wait_for_tokens(cost, rate);
    let q = cost * 1_000_000_000 / (rate as int);
    assert(w >= q);
    assert((q + 1) * rate > cost * 1_000_000_000) by (nonlinear_arith)
        requires
            q == cost * 1_000_000_000 / (rate as int),
            rate > 0,
    ;
    let e = (later - s1.last_leak_nanos) as u64;
    assert(e >= q + 1);
    assert(e * big_r / 1_000_000_000 >= cost * 1000) by (nonlinear_arith)
        requires
            e >= q + 1,
            (q + 1) * rate > cost * 1_000_000_000,
            big_r == rate * 1000,
            q >= 0,
            rate > 0,
    ;
    let out = spec_refill_tokens(e, big_r);
    assert(out >= cost * 1000);
}

/// Whether every key of a leaky bucket holds at most its capacity.
pub open spec fn leaky_levels_within(v: LeakyBucketView) -> bool {
    forall|k: Seq<char>| #[trigger] v.states.contains_key(k) ==> v.states[k].tokens <= sat_mul(v.capacity, SCALE)
}

/// Every leaky-bucket check keeps every key within capacity.
pub proof fn lemma_leaky_step_keeps_levels(v: LeakyBucketView, key: Seq<char>, cost: u64, now: u64)
    requires
        v.capacity <= MAX_CAPACITY,
        leaky_levels_within(v),
    ensures
        leaky_levels_within(leaky_bucket_step(v, key, cost, now).0),
{
    if cost != 0 {
        let (rng, sweep) = crate::algorithm::token_bucket::cleanup_draw(v.idle_ttl, v.rng);
        let states = crate::algorithm::token_bucket::swept(v.states, v.idle_ttl, sweep, now);
        let current = if states.contains_key(key) {
            states[key]
        } else {
            LeakyState::spec_new(now)
        };
        lemma_leaky_level_kept(current, v.capacity, v.leak_rate_per_second, now, cost);
        let v1 = leaky_bucket_step(v, key, cost, now).0;
        assert forall|k: Seq<char>| #[trigger] v1.states.contains_key(k) implies v1.states[k].tokens
            <= sat_mul(v1.capacity, SCALE) by {
            if k != key {
                assert(v.states.contains_key(k));
            }
        }
    }
}

/// A new leaky-bucket key starts empty: its first request of at most the
/// capacity is permitted.
pub proof fn lemma_leaky_new_key_empty(v: LeakyBucketView, key: Seq<char>, cost: u64, now: u64)
    requires
        v.capacity <= MAX_CAPACITY,
        v.idle_ttl is None,
        !v.states.contains_key(key),
        0 < cost <= v.capacity,
    ensures
        leaky_bucket_step(v, key, cost, now).1.permitted,
{
    assert(sat_mul(v.capacity, SCALE) == v.capacity * 1000) by (nonlinear_arith)
        requires
            v.capacity <= MAX_CAPACITY,
    ;
    assert(sat_mul(cost, SCALE) == cost * 1000) by (nonlinear_arith)
        requires
            cost <= v.capacity <= MAX_CAPACITY,
    ;
    assert(cost * 1000 <= v.capacity * 1000) by (nonlinear_arith)
        requires
            cost <= v.capacity,
    ;
}

/// A check with cost 0 is denied without touching any leaky-bucket state.
pub proof fn lemma_leaky_zero_cost(v: LeakyBucketView, key: Seq<char>, now: u64)
    ensures
        leaky_bucket_step(v, key, 0, now) == (v, spec_zero_cost_decision(v.capacity)),
{
}

/// A leaky-bucket check on one key leaves every other key as it was, when no
/// TTL is configured.
pub proof fn lemma_leaky_key_isolation(v: LeakyBucketView, key: Seq<char>, cost: u64, now: u64, other: Seq<char>)
    requires
        v.idle_ttl is None,
        other != key,
    ensures
        leaky_bucket_step(v, key, cost, now).0.states.contains_key(other) == v.states.contains_key(other),
        v.states.contains_key(other) ==> leaky_bucket_step(v, key, cost, now).0.states[other]
            == v.states[other],
{
}

/// Whether a probabilistic key and a token-bucket key hold the same tokens
/// and the same refill clock.
pub open spec fn same_bucket(p: ProbabilisticState, t: TokenState) -> bool {
    p.tokens == t.tokens && p.last_refill_nanos == t.last_refill_nanos
}

/// With `sample_rate = 1` the probabilistic bucket is exactly the
/// deterministic token bucket: on a key holding the same tokens and refill
/// clock, a request gets the same verdict and remaining count, draws nothing
/// from the generator, and leaves the two keys alike again.
///
/// Stated for capacities and rates within the probabilistic bucket's bounds,
/// on a key within capacity.
pub proof fn lemma_unsampled_is_token_bucket(
    p: ProbabilisticState,
    t: TokenState,
    capacity: u64,
    refill_rate_per_second: u64,
    now: u64,
    cost: u64,
    track_access: bool,
    rng: u64,
)
    requires
        same_bucket(p, t),
        capacity <= crate::algorithm::probabilistic_token_bucket::MAX_BURST,
        refill_rate_per_second <= crate::algorithm::probabilistic_token_bucket::MAX_RATE_PER_SEC,
        t.tokens <= sat_mul(capacity, SCALE),
    ensures
        ({
            let (p2, pp, pr, rng2) = p.probabilistic(
                capacity,
                refill_rate_per_second,
                now,
                cost,
                1,
                track_access,
                rng,
            );
            let (t2, tp, tr) = t.consumed(capacity, refill_rate_per_second, now, cost);
            &&& pp == tp
            &&& pr == tr
            &&& rng2 == rng
            &&& same_bucket(p2, t2)
            &&& 0 <= t2.tokens <= sat_mul(capacity, SCALE)
        }),
{
    let cap_s = sat_mul(capacity, SCALE);
    let r = sat_mul(refill_rate_per_second, SCALE);
    assert(capacity * 1000 <= i64::MAX / 2) by (nonlinear_arith)
        requires
            capacity <= 9_223_372_036_854_775_807u64 / 2000,
    ;
    assert(spec_scaled(capacity) == cap_s);
}

/// Whether a probabilistic bucket with `sample_rate = 1` and a token bucket
/// are alike: same settings within the probabilistic bounds, no TTL, the
/// same keys, and for every key the same tokens and refill clock, within
/// capacity.
pub open spec fn unsampled_like(p: ProbabilisticTokenBucketView, t: TokenBucketView) -> bool {
    &&& p.capacity == t.capacity
    &&& p.refill_rate_per_second == t.refill_rate_per_second
    &&& p.capacity <= crate::algorithm::probabilistic_token_bucket::MAX_BURST
    &&& p.refill_rate_per_second <= crate::algorithm::probabilistic_token_bucket::MAX_RATE_PER_SEC
    &&& p.sample_rate == 1
    &&& p.idle_ttl is None
    &&& t.idle_ttl is None
    &&& p.states.dom() == t.states.dom()
    &&& forall|k: Seq<char>| #[trigger] t.states.contains_key(k) ==> same_bucket(p.states[k], t.states[k])
        && t.states[k].tokens <= sat_mul(t.capacity, SCALE)
}

/// The probabilistic bucket made with `new(c, r, 1)` and the token bucket
/// made with `new(c, r)` start alike, for `c` and `r` within the
/// probabilistic bounds.
pub proof fn lemma_new_buckets_alike(p: ProbabilisticTokenBucketView, t: TokenBucketView, c: u64, r: u64)
    requires
        c <= crate::algorithm::probabilistic_token_bucket::MAX_BURST,
        r <= crate::algorithm::probabilistic_token_bucket::MAX_RATE_PER_SEC,
        p.capacity == (if c < crate::algorithm::probabilistic_token_bucket::MAX_BURST {
            c
        } else {
            crate::algorithm::probabilistic_token_bucket::MAX_BURST
        }),
        p.refill_rate_per_second == (if r < crate::algorithm::probabilistic_token_bucket::MAX_RATE_PER_SEC {
            r
        } else {
            crate::algorithm::probabilistic_token_bucket::MAX_RATE_PER_SEC
        }),
        p.sample_rate == 1,
        p.idle_ttl is None,
        p.states == Map::<Seq<char>, ProbabilisticState>::empty(),
        t.capacity == crate::algorithm::internal::min_u64(c, MAX_BURST),
        t.refill_rate_per_second == crate::algorithm::internal::min_u64(r, MAX_RATE_PER_SEC),
        t.idle_ttl is None,
        t.states == Map::<Seq<char>, TokenState>::empty(),
    ensures
        unsampled_like(p, t),
{
    assert(p.states.dom() =~= t.states.dom());
}

/// One check on alike buckets: the same verdict and remaining count, and the
/// buckets stay alike.
pub proof fn lemma_unsampled_step(p: ProbabilisticTokenBucketView, t: TokenBucketView, key: Seq<char>, cost: u64, now: u64)
    requires
        unsampled_like(p, t),
    ensures
        ({
            let (p1, dp) = probabilistic_step(p, key, cost, now);
            let (t1, dt) = token_bucket_step(t, key, cost, now);
            &&& dp.permitted == dt.permitted
            &&& dp.remaining == dt.remaining
            &&& unsampled_like(p1, t1)
        }),
{
    if cost != 0 {
        assert(p.capacity * 1000 <= i64::MAX / 2) by (nonlinear_arith)
            requires
                p.capacity <= 9_223_372_036_854_775_807u64 / 2000,
        ;
        assert(spec_scaled(p.capacity) == sat_mul(p.capacity, SCALE));
        let (rng1, _) = crate::algorithm::probabilistic_token_bucket::probabilistic_cleanup_draw(
            p.idle_ttl,
            p.sample_rate,
            p.rng,
        );
        let (pc, rng2) = if p.states.contains_key(key) {
            (p.states[key], rng1)
        } else {
            (
                ProbabilisticState::spec_new(p.capacity, now, crate::algorithm::internal::spec_xorshift(rng1)),
                crate::algorithm::internal::spec_xorshift(rng1),
            )
        };
        let tc = if t.states.contains_key(key) {
            t.states[key]
        } else {
            TokenState::spec_new(t.capacity, now)
        };
        assert(p.states.contains_key(key) == t.states.contains_key(key));
        assert(same_bucket(pc, tc) && tc.tokens <= sat_mul(t.capacity, SCALE));
        lemma_unsampled_is_token_bucket(pc, tc, p.capacity, p.refill_rate_per_second, now, cost, false, rng2);
        let (p1, _) = probabilistic_step(p, key, cost, now);
        let (t1, _) = token_bucket_step(t, key, cost, now);
        assert(p1.states.dom() =~= t1.states.dom());
        assert forall|k: Seq<char>| #[trigger] t1.states.contains_key(k) implies same_bucket(
            p1.states[k],
            t1.states[k],
        ) && t1.states[k].tokens <= sat_mul(t1.capacity, SCALE) by {
            if k != key {
                assert(t.states.contains_key(k));
            }
        }
    }
}

/// The decisions and final view of a probabilistic bucket over a run of
/// `(key, cost, time)` checks.
pub open spec fn probabilistic_run(v: ProbabilisticTokenBucketView, calls: Seq<(Seq<char>, u64, u64)>) -> (
    ProbabilisticTokenBucketView,
    Seq<RateLimitDecision>,
)
    decreases calls.len(),
{
    if calls.len() == 0 {
        (v, Seq::empty())
    } else {
        let (before, ds) = probabilistic_run(v, calls.drop_last());
        let (key, cost, now) = calls.last();
        let (after, d) = probabilistic_step(before, key, cost, now);
        (after, ds.push(d))
    }
}

/// The decisions and final view of a token bucket over a run of
/// `(key, cost, time)` checks.
pub open spec fn token_bucket_run(v: TokenBucketView, calls: Seq<(Seq<char>, u64, u64)>) -> (
    TokenBucketView,
    Seq<RateLimitDecision>,
)
    decreases calls.len(),
{
    if calls.len() == 0 {
        (v, Seq::empty())
    } else {
        let (before, ds) = token_bucket_run(v, calls.drop_last());
        let (key, cost, now) = calls.last();
        let (after, d) = token_bucket_step(before, key, cost, now);
        (after, ds.push(d))
    }
}

/// `sample_rate = 1` is exactly the deterministic bucket over whole runs:
/// alike buckets (as made by `new(c, r, 1)` and `new(c, r)`) given the same
/// checks return, check by check, the same verdict and remaining count.
pub proof fn lemma_unsampled_run(p: ProbabilisticTokenBucketView, t: TokenBucketView, calls: Seq<(Seq<char>, u64, u64)>)
    requires
        unsampled_like(p, t),
    ensures
        ({
            let (p1, dps) = probabilistic_run(p, calls);
            let (t1, dts) = token_bucket_run(t, calls);
            &&& unsampled_like(p1, t1)
            &&& dps.len() == calls.len()
            &&& dts.len() == calls.len()
            &&& forall|i: int| 0 <= i < calls.len() ==> (#[trigger] dps[i]).permitted == dts[i].permitted
                && dps[i].remaining == dts[i].remaining
        }),
    decreases calls.len(),
{
    if calls.len() > 0 {
        lemma_unsampled_run(p, t, calls.drop_last());
        let (pb, dps0) = probabilistic_run(p, calls.drop_last());
        let (tb, dts0) = token_bucket_run(t, calls.drop_last());
        let (key, cost, now) = calls.last();
        lemma_unsampled_step(pb, tb, key, cost, now);
        let (p1, dps) = probabilistic_run(p, calls);
        let (t1, dts) = token_bucket_run(t, calls);
        assert forall|i: int| 0 <= i < calls.len() implies (#[trigger] dps[i]).permitted == dts[i].permitted
            && dps[i].remaining == dts[i].remaining by {
            if i < calls.len() - 1 {
                assert(dps[i] == dps0[i]);
                assert(dts[i] == dts0[i]);
            }
        }
    }
}

/// A denied token-bucket request never lowers the key's tokens: a denial
/// only refills.
pub proof fn lemma_token_denial_keeps_tokens(
    s: TokenState,
    capacity: u64,
    refill_rate_per_second: u64,
    now: u64,
    cost: u64,
)
    ensures
        !s.consumed(capacity, refill_rate_per_second, now, cost).1 ==> s.consumed(
            capacity,
            refill_rate_per_second,
            now,
            cost,
        ).0.tokens >= s.tokens,
{
}

/// Over any run of checks, every key of a token bucket stays within
/// capacity (a new bucket has no keys, so this holds from creation on).
pub proof fn lemma_token_run_keeps_levels(v: TokenBucketView, calls: Seq<(Seq<char>, u64, u64)>)
    requires
        token_levels_within(v),
    ensures
        token_levels_within(token_bucket_run(v, calls).0),
    decreases calls.len(),
{
    if calls.len() > 0 {
        lemma_token_run_keeps_levels(v, calls.drop_last());
        let (before, _) = token_bucket_run(v, calls.drop_last());
        let (key, cost, now) = calls.last();
        lemma_token_step_keeps_levels(before, key, cost, now);
    }
}

/// A run of token-bucket checks keeps the settings and, without a TTL, the
/// random state.
pub proof fn lemma_token_run_settings(v: TokenBucketView, calls: Seq<(Seq<char>, u64, u64)>)
    ensures
        token_bucket_run(v, calls).0.capacity == v.capacity,
        token_bucket_run(v, calls).0.refill_rate_per_second == v.refill_rate_per_second,
        token_bucket_run(v, calls).0.idle_ttl == v.idle_ttl,
        v.idle_ttl is None ==> token_bucket_run(v, calls).0.rng == v.rng,
        token_bucket_run(v, calls).1.len() == calls.len(),
    decreases calls.len(),
{
    if calls.len() > 0 {
        lemma_token_run_settings(v, calls.drop_last());
    }
}

/// Keys are isolated over any number of checks: without a TTL, checks on
/// other keys leave a key's state as it was, so a later check on that key
/// gets the same decision whether or not they happened.
pub proof fn lemma_token_run_isolation(
    v: TokenBucketView,
    calls: Seq<(Seq<char>, u64, u64)>,
    key: Seq<char>,
    cost: u64,
    now: u64,
)
    requires
        v.idle_ttl is None,
        forall|i: int| 0 <= i < calls.len() ==> (#[trigger] calls[i]).0 != key,
    ensures
        token_bucket_run(v, calls).0.states.contains_key(key) == v.states.contains_key(key),
        v.states.contains_key(key) ==> token_bucket_run(v, calls).0.states[key] == v.states[key],
        token_bucket_step(token_bucket_run(v, calls).0, key, cost, now).1 == token_bucket_step(
            v,
            key,
            cost,
            now,
        ).1,
    decreases calls.len(),
{
    lemma_token_run_settings(v, calls);
    if calls.len() > 0 {
        let prefix = calls.drop_last();
        assert forall|i: int| 0 <= i < prefix.len() implies (#[trigger] prefix[i]).0 != key by {
            assert(prefix[i] == calls[i]);
        }
        lemma_token_run_isolation(v, prefix, key, cost, now);
        let (before, _) = token_bucket_run(v, prefix);
        lemma_token_run_settings(v, prefix);
        let (k, c, n) = calls.last();
        assert(k != key) by {
            assert(calls[calls.len() - 1].0 != key);
        }
        lemma_token_key_isolation(before, k, c, n, key);
    }
}

/// Without a TTL a token bucket never reads its random state: two buckets
/// that differ only there return the same decisions over any run of checks,
/// and still differ only there.
pub proof fn lemma_token_run_ignores_rng(a: TokenBucketView, b: TokenBucketView, calls: Seq<(Seq<char>, u64, u64)>)
    requires
        crate::limiter::same_but_rng(a, b),
        a.idle_ttl is None,
    ensures
        crate::limiter::same_but_rng(token_bucket_run(a, calls).0, token_bucket_run(b, calls).0),
        token_bucket_run(a, calls).1 == token_bucket_run(b, calls).1,
    decreases calls.len(),
{
    if calls.len() > 0 {
        lemma_token_run_ignores_rng(a, b, calls.drop_last());
        lemma_token_run_settings(a, calls.drop_last());
        let (ba, da) = token_bucket_run(a, calls.drop_last());
        let (bb, db) = token_bucket_run(b, calls.drop_last());
        let (key, cost, now) = calls.last();
        assert(token_bucket_step(ba, key, cost, now).1 == token_bucket_step(bb, key, cost, now).1);
        assert(token_bucket_run(a, calls).1 =~= token_bucket_run(b, calls).1);
    }
}

/// A limiter built with `builder().requests_per_second(r).burst(b).build()`
/// and one made with `new` from the same settings decide alike: both views
/// are the fresh bucket up to the random state, which a bucket without a
/// TTL never reads, so every run of checks gets the same decisions.
pub proof fn lemma_built_is_new(
    built: TokenBucketView,
    made: TokenBucketView,
    burst: u64,
    requests_per_second: u64,
    calls: Seq<(Seq<char>, u64, u64)>,
)
    requires
        crate::limiter::same_but_rng(built, crate::limiter::fresh_token_bucket(burst, requests_per_second)),
        crate::limiter::same_but_rng(made, crate::limiter::fresh_token_bucket(burst, requests_per_second)),
    ensures
        token_bucket_run(built, calls).1 == token_bucket_run(made, calls).1,
{
    lemma_token_run_ignores_rng(built, made, calls);
}

/// The whole tokens that the permitted checks of a token-bucket run asked
/// for (the sum of their costs).
pub open spec fn bucket_admitted(v: TokenBucketView, calls: Seq<(Seq<char>, u64, u64)>) -> int
    decreases calls.len(),
{
    if calls.len() == 0 {
        0
    } else {
        let (before, _) = token_bucket_run(v, calls.drop_last());
        let (key, cost, now) = calls.last();
        bucket_admitted(v, calls.drop_last()) + if token_bucket_step(before, key, cost, now).1.permitted {
            cost as int
        } else {
            0
        }
    }
}

/// Whether every check is on `key`, at times non-decreasing from `t0`.
pub open spec fn one_key_from(key: Seq<char>, t0: u64, calls: Seq<(Seq<char>, u64, u64)>) -> bool {
    &&& forall|i: int| 0 <= i < calls.len() ==> (#[trigger] calls[i]).0 == key
    &&& forall|i: int, j: int| 0 <= i <= j < calls.len() ==> (#[trigger] calls[i]).2 <= (#[trigger] calls[j]).2
    &&& forall|i: int| 0 <= i < calls.len() ==> t0 <= (#[trigger] calls[i]).2
}

/// The invariant behind [`lemma_token_bucket_fresh_key_bound`]: after a run
/// of checks on one new key, what was admitted plus what the key holds is at
/// most the capacity plus what accrued up to its refill clock.
proof fn lemma_token_bucket_one_key_run(v: TokenBucketView, key: Seq<char>, t0: u64, calls: Seq<(Seq<char>, u64, u64)>)
    requires
        v.idle_ttl is None,
        v.capacity <= MAX_BURST,
        v.refill_rate_per_second <= MAX_RATE_PER_SEC,
        !v.states.contains_key(key),
        one_key_from(key, t0, calls),
    ensures
        ({
            let (after, _) = token_bucket_run(v, calls);
            let a = bucket_admitted(v, calls);
            let r = v.refill_rate_per_second * 1000;
            &&& a >= 0
            &&& !after.states.contains_key(key) ==> a == 0
            &&& after.states.contains_key(key) ==> {
                let s = after.states[key];
                &&& t0 <= s.last_refill_nanos
                &&& s.tokens <= v.capacity * 1000
                &&& calls.len() > 0 ==> s.last_refill_nanos <= calls.last().2
                &&& 1_000_000_000 * (1000 * a + s.tokens) <= 1_000_000_000 * (v.capacity * 1000) + r * (
                s.last_refill_nanos - t0)
            }
        }),
    decreases calls.len(),
{
    let cap = v.capacity;
    let rate = v.refill_rate_per_second;
    let r = rate * 1000;
    assert(sat_mul(cap, SCALE) == cap * 1000) by (nonlinear_arith)
        requires
            cap <= MAX_BURST,
    ;
    assert(sat_mul(rate, SCALE) == rate * 1000) by (nonlinear_arith)
        requires
            rate <= MAX_RATE_PER_SEC,
    ;
    if calls.len() > 0 {
        let prefix = calls.drop_last();
        assert(one_key_from(key, t0, prefix)) by {
            assert forall|i: int| 0 <= i < prefix.len() implies (#[trigger] prefix[i]).0 == key by {
                assert(prefix[i] == calls[i]);
            }
            assert forall|i: int, j: int| 0 <= i <= j < prefix.len() implies (#[trigger] prefix[i]).2
                <= (#[trigger] prefix[j]).2 by {
                assert(prefix[i] == calls[i] && prefix[j] == calls[j]);
            }
            assert forall|i: int| 0 <= i < prefix.len() implies t0 <= (#[trigger] prefix[i]).2 by {
                assert(prefix[i] == calls[i]);
            }
        }
        lemma_token_bucket_one_key_run(v, key, t0, prefix);
        lemma_token_run_settings(v, prefix);
        let (before, _) = token_bucket_run(v, prefix);
        let a0 = bucket_admitted(v, prefix);
        let (k, cost, now) = calls.last();
        assert(k == key && t0 <= now) by {
            assert(calls[calls.len() - 1].0 == key);
            assert(t0 <= calls[calls.len() - 1].2);
        }
        if before.states.contains_key(key) && prefix.len() > 0 {
            assert(before.states[key].last_refill_nanos <= now) by {
                assert(prefix.last() == calls[prefix.len() - 1]);
                assert(calls[prefix.len() - 1].2 <= calls[calls.len() - 1].2);
            }
        }
        if cost != 0 {
            let current = if before.states.contains_key(key) {
                before.states[key]
            } else {
                TokenState::spec_new(cap, now)
            };
            assert(current.last_refill_nanos <= now);
            assert(t0 <= current.last_refill_nanos);
            assert(current.tokens <= cap * 1000);
            assert(1_000_000_000 * (1000 * a0 + current.tokens) <= 1_000_000_000 * (cap * 1000) + r * (
            current.last_refill_nanos - t0)) by {
                if !before.states.contains_key(key) {
                    assert(a0 == 0);
                    assert(r * (current.last_refill_nanos - t0) >= 0) by (nonlinear_arith)
                        requires
                            r >= 0,
                            current.last_refill_nanos - t0 >= 0,
                    ;
                }
            }
            lemma_consume_credit(current, cap, rate, now, cost);
            lemma_token_capacity_kept(current, cap, rate, now, cost);
            let (next, permitted, _) = current.consumed(cap, rate, now, cost);
            if permitted {
                let rf = TokenState { last_access_nanos: now, ..current }.refilled(
                    sat_mul(cap, SCALE),
                    sat_mul(rate, SCALE),
                    now,
                );
                lemma_refill_credit(TokenState { last_access_nanos: now, ..current }, sat_mul(cap, SCALE), sat_mul(rate, SCALE), now);
                assert(sat_mul(cost, SCALE) == cost * 1000) by (nonlinear_arith)
                    requires
                        sat_mul(cost, SCALE) <= rf.tokens,
                        rf.tokens <= cap * 1000,
                        cap <= MAX_BURST,
                        sat_mul(cost, SCALE) == (if cost * 1000 > u64::MAX {
                            u64::MAX as int
                        } else {
                            cost * 1000
                        }),
                ;
            }
            assert(r * (next.last_refill_nanos - current.last_refill_nanos) + r * (current.last_refill_nanos
                - t0) == r * (next.last_refill_nanos - t0)) by (nonlinear_arith);
        }
    }
}

/// Bursts up to capacity, then at most the refill rate, for a whole token
/// bucket: over any run of checks on one key that the bucket has not seen,
/// at times non-decreasing from `t0` to `tn`, without a TTL, the costs of
/// the permitted checks add up to at most the capacity plus the rate times
/// the elapsed seconds, rounded down.
pub proof fn lemma_token_bucket_fresh_key_bound(v: TokenBucketView, key: Seq<char>, t0: u64, calls: Seq<(Seq<char>, u64, u64)>)
    requires
        v.idle_ttl is None,
        v.capacity <= MAX_BURST,
        v.refill_rate_per_second <= MAX_RATE_PER_SEC,
        !v.states.contains_key(key),
        one_key_from(key, t0, calls),
        calls.len() > 0,
    ensures
        bucket_admitted(v, calls) <= v.capacity + v.refill_rate_per_second * (calls.last().2 - t0)
            / 1_000_000_000,
{
    lemma_token_bucket_one_key_run(v, key, t0, calls);
    let (after, _) = token_bucket_run(v, calls);
    let a = bucket_admitted(v, calls);
    let rate = v.refill_rate_per_second;
    let cap = v.capacity;
    let tn = calls.last().2;
    assert(t0 <= tn) by {
        assert(t0 <= calls[calls.len() - 1].2);
    }
    if after.states.contains_key(key) {
        let s = after.states[key];
        assert(a <= cap + rate * (tn - t0) / 1_000_000_000) by (nonlinear_arith)
            requires
                1_000_000_000 * (1000 * a + s.tokens) <= 1_000_000_000 * (cap * 1000) + (rate * 1000) * (
                s.last_refill_nanos - t0),
                s.tokens >= 0,
                t0 <= s.last_refill_nanos <= tn,
                rate >= 0,
        ;
    } else {
        assert(0 <= rate * (tn - t0) / 1_000_000_000) by (nonlinear_arith)
            requires
                rate >= 0,
                tn - t0 >= 0,
        ;
    }
}

/// Among `sample_rate` consecutive sampler ticks that do not wrap around,
/// exactly one is sampled.
pub proof fn lemma_one_sample_per_group(tick: u64, sample_rate: u32, j: int)
    requires
        sample_rate >= 1,
        0 <= j < sample_rate,
        tick + sample_rate - 1 <= u64::MAX,
    ensures
        ((tick + j) % (sample_rate as int) == 0) <==> j == (sample_rate - (tick as int) % (
            sample_rate as int)) % (sample_rate as int),
{
    let n = sample_rate as int;
    let m = (tick as int) % n;
    assert(0 <= m < n) by (nonlinear_arith)
        requires
            n >= 1,
            m == (tick as int) % n,
    ;
    assert((tick + j) % n == (m + j) % n) by {
        vstd::arithmetic::div_mod::lemma_add_mod_noop(tick as int, j, n);
        vstd::arithmetic::div_mod::lemma_small_mod(j as nat, n as nat);
    }
    if m == 0 {
        assert((n - m) % n == 0) by (nonlinear_arith)
            requires
                n >= 1,
                m == 0,
        ;
        assert((m + j) % n == j) by (nonlinear_arith)
            requires
                n >= 1,
                m == 0,
                0 <= j < n,
        ;
    } else {
        assert((n - m) % n == n - m) by (nonlinear_arith)
            requires
                n >= 1,
                0 < m < n,
        ;
        assert(((m + j) % n == 0) <==> j == n - m) by (nonlinear_arith)
            requires
                n >= 1,
                0 < m < n,
                0 <= j < n,
        ;
    }
}

/// The random point of a refill window is never past its end.
pub proof fn lemma_fraction_within(accrued: i64, rng: u64)
    ensures
        0 <= random_fraction_step(accrued, rng).0,
        accrued > 0 ==> random_fraction_step(accrued, rng).0 <= accrued,
{
    if accrued > 0 {
        let d = crate::algorithm::internal::spec_xorshift(rng);
        let f = d / 0x1_0000_0000;
        assert(0 <= f < 0x1_0000_0000);
        assert(0 <= accrued * f / 0x1_0000_0000 <= accrued) by (nonlinear_arith)
            requires
                0 <= f < 0x1_0000_0000,
                accrued > 0,
        ;
        assert(spec_fraction_of(accrued, d) == accrued * f / 0x1_0000_0000);
    }
}

/// Serialized probabilistic requests overdraw a key by less than one lump:
/// if the key's debt is within `bound` and a request's lump (`sample_rate`
/// times its scaled cost) is at most `bound`, the debt stays within `bound`.
pub proof fn lemma_overdraft_within_lump(
    p: ProbabilisticState,
    capacity: u64,
    refill_rate_per_second: u64,
    now: u64,
    cost: u64,
    sample_rate: u32,
    track_access: bool,
    rng: u64,
    bound: i64,
)
    requires
        sample_rate >= 1,
        capacity <= crate::algorithm::probabilistic_token_bucket::MAX_BURST,
        1 <= bound <= i64::MAX / 4,
        -bound <= p.tokens <= spec_scaled(capacity),
        spec_scaled(cost) * sample_rate <= bound,
    ensures
        ({
            let (p2, _, _, _) = p.probabilistic(
                capacity,
                refill_rate_per_second,
                now,
                cost,
                sample_rate,
                track_access,
                rng,
            );
            -bound <= p2.tokens <= spec_scaled(capacity)
        }),
{
    let cap_s = spec_scaled(capacity);
    assert(capacity * 1000 <= i64::MAX / 2) by (nonlinear_arith)
        requires
            capacity <= 9_223_372_036_854_775_807u64 / 2000,
    ;
    assert(0 <= cap_s);
    let cost_s = spec_scaled(cost);
    assert(0 <= cost_s * sample_rate) by (nonlinear_arith)
        requires
            cost_s >= 0,
            sample_rate >= 1,
    ;
    if sample_rate > 1 {
        let s0 = if track_access {
            ProbabilisticState { last_access_nanos: now, ..p }
        } else {
            p
        };
        let lump = (cost_s * sample_rate) as i64;
        let ramp = if crate::algorithm::probabilistic_token_bucket::min_i64(lump, cap_s) < 1 {
            1i64
        } else {
            crate::algorithm::probabilistic_token_bucket::min_i64(lump, cap_s)
        };
        let (s1, sampled) = s0.sampled(sample_rate);
        if sampled {
            let r = sat_mul(refill_rate_per_second, SCALE);
            let accrued = spec_refill_i64(now.saturating_sub(s1.last_refill_nanos), r);
            lemma_fraction_within(accrued, rng);
            let (part, rng1) = random_fraction_step(accrued, rng);
            let observed = crate::algorithm::probabilistic_token_bucket::min_i64(
                sat_add_i64(s1.tokens, part),
                cap_s,
            );
            let s2 = s1.refilled(cap_s, r, now);
            assert(s2.tokens >= s1.tokens);
            assert(s2.tokens >= observed);
            assert(s2.tokens <= cap_s);
            let debit = ProbabilisticState::spec_debit(lump, observed, ramp);
            if observed >= ramp {
                assert(debit == lump);
            } else if observed > 0 {
                if ramp >= lump {
                    assert(lump * observed / (ramp as int) <= observed) by (nonlinear_arith)
                        requires
                            0 < observed < ramp,
                            0 <= lump <= ramp,
                    ;
                } else {
                    assert(lump * observed / (ramp as int) < lump) by (nonlinear_arith)
                        requires
                            0 < observed < ramp,
                            ramp < lump,
                    ;
                }
                assert(0 <= lump * observed / (ramp as int)) by (nonlinear_arith)
                    requires
                        0 < observed,
                        0 < ramp,
                        0 <= lump,
                ;
            }
        }
    }
}

/// Whether a cached bucket and a token bucket are alike: same settings, same
/// random state, and the same token bucket for every key.
pub open spec fn cached_like(c: CachedTokenBucketView, t: TokenBucketView) -> bool {
    &&& c.capacity == t.capacity
    &&& c.refill_rate_per_second == t.refill_rate_per_second
    &&& c.idle_ttl == t.idle_ttl
    &&& c.rng == t.rng
    &&& c.states.dom() == t.states.dom()
    &&& forall|k: Seq<char>| #[trigger] c.states.contains_key(k) ==> c.states[k].bucket == t.states[k]
}

/// The cached token bucket decides exactly as the token bucket: from alike
/// states, a check gets the same decision and leaves the two alike.
pub proof fn lemma_cached_is_token_bucket(c: CachedTokenBucketView, t: TokenBucketView, key: Seq<char>, cost: u64, now: u64)
    requires
        cached_like(c, t),
    ensures
        cached_step(c, key, cost, now).1 == token_bucket_step(t, key, cost, now).1,
        cached_like(cached_step(c, key, cost, now).0, token_bucket_step(t, key, cost, now).0),
{
    if cost != 0 {
        let (rng, sweep) = crate::algorithm::token_bucket::cleanup_draw(c.idle_ttl, c.rng);
        let cs = crate::algorithm::token_bucket::swept(c.states, c.idle_ttl, sweep, now);
        let ts = crate::algorithm::token_bucket::swept(t.states, t.idle_ttl, sweep, now);
        assert(cs.dom() =~= ts.dom()) by {
            assert forall|k: Seq<char>| cs.contains_key(k) == ts.contains_key(k) by {
                if c.states.contains_key(k) {
                    assert(c.states[k].bucket == t.states[k]);
                    assert(c.states[k].stamp() == t.states[k].stamp());
                }
                assert(c.states.contains_key(k) == t.states.contains_key(k));
            }
        }
        assert forall|k: Seq<char>| #[trigger] cs.contains_key(k) implies cs[k].bucket == ts[k] by {
            assert(c.states.contains_key(k));
        }
        let (cn, _, _) = (if cs.contains_key(key) {
            cs[key]
        } else {
            CachedState::spec_new(c.capacity, now)
        }).consumed(c.capacity, c.refill_rate_per_second, now, cost);
        let (tn, _, _) = (if ts.contains_key(key) {
            ts[key]
        } else {
            TokenState::spec_new(t.capacity, now)
        }).consumed(t.capacity, t.refill_rate_per_second, now, cost);
        assert(cn.bucket == tn);
        let c2 = cached_step(c, key, cost, now).0;
        let t2 = token_bucket_step(t, key, cost, now).0;
        assert(c2.states.dom() =~= t2.states.dom());
        assert forall|k: Seq<char>| #[trigger] c2.states.contains_key(k) implies c2.states[k].bucket
            == t2.states[k] by {
            if k != key {
                assert(cs.contains_key(k));
            }
        }
    }
}

/// A sweep of idle keys removes exactly the keys idle for at least the TTL
/// and keeps every other key unchanged.
pub proof fn lemma_sweep_removes_exactly_idle<T: Stamped>(states: Map<Seq<char>, T>, now: u64, ttl: u64, k: Seq<char>)
    ensures
        without_idle(states, now, ttl).contains_key(k) <==> (states.contains_key(k) && !is_idle(
            states[k].stamp(),
            now,
            ttl,
        )),
        without_idle(states, now, ttl).contains_key(k) ==> without_idle(states, now, ttl)[k]
            == states[k],
{
}

/// A cleanup at `now` with TTL `ttl` keeps exactly the keys last used less
/// than `ttl` nanoseconds before `now`, unchanged (a stamp after `now`
/// counts as idle for 0 ns), and removes every key with
/// `now - last_access >= ttl`.
pub proof fn lemma_sweep_keeps_exactly_recent<T: Stamped>(states: Map<Seq<char>, T>, now: u64, ttl: u64, k: Seq<char>)
    ensures
        without_idle(states, now, ttl).contains_key(k) <==> (states.contains_key(k) && (if now
            >= states[k].stamp() {
            now - states[k].stamp()
        } else {
            0
        }) < ttl),
        without_idle(states, now, ttl).contains_key(k) ==> without_idle(states, now, ttl)[k]
            == states[k],
        states.contains_key(k) && now >= states[k].stamp() && now - states[k].stamp() >= ttl
            ==> !without_idle(states, now, ttl).contains_key(k),
{
}

/// With a TTL, a token-bucket check on one key keeps every other key that
/// was last used less than the TTL before the check, unchanged, whether or
/// not the check runs a cleanup.
pub proof fn lemma_token_ttl_keeps_recent(v: TokenBucketView, key: Seq<char>, cost: u64, now: u64, other: Seq<char>, ttl: u64)
    requires
        v.idle_ttl == Some(ttl),
        other != key,
        v.states.contains_key(other),
        now >= v.states[other].last_access_nanos,
        now - v.states[other].last_access_nanos < ttl,
    ensures
        token_bucket_step(v, key, cost, now).0.states.contains_key(other),
        token_bucket_step(v, key, cost, now).0.states[other] == v.states[other],
{
    lemma_sweep_keeps_exactly_recent(v.states, now, ttl, other);
}

/// A check with cost 0 is denied without touching any probabilistic state.
pub proof fn lemma_probabilistic_zero_cost(v: ProbabilisticTokenBucketView, key: Seq<char>, now: u64)
    ensures
        probabilistic_step(v, key, 0, now) == (v, spec_zero_cost_decision(v.capacity)),
{
}

/// A probabilistic check on one key leaves every other key as it was, when
/// no TTL is configured.
pub proof fn lemma_probabilistic_key_isolation(
    v: ProbabilisticTokenBucketView,
    key: Seq<char>,
    cost: u64,
    now: u64,
    other: Seq<char>,
)
    requires
        v.idle_ttl is None,
        other != key,
    ensures
        probabilistic_step(v, key, cost, now).0.states.contains_key(other) == v.states.contains_key(
            other,
        ),
        v.states.contains_key(other) ==> probabilistic_step(v, key, cost, now).0.states[other]
            == v.states[other],
{
}

} // verus!
