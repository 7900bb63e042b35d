use tokio_rate_limit::algorithm::probabilistic_token_bucket::MAX_RATE_PER_SEC;
use tokio_rate_limit::algorithm::{Algorithm, LeakyBucket, ProbabilisticTokenBucket, TokenBucket};

const MS: u64 = 1_000_000;
const SEC: u64 = 1_000_000_000;

#[test]
fn token_bucket_admits_at_most_capacity_plus_refill() {
    let capacity = 20u64;
    let rate = 50u64;
    let mut bucket = TokenBucket::new(capacity, rate);
    let mut admitted = 0u64;
    let mut now = 0u64;
    for _ in 0..5_000 {
        if bucket.check_at("k", 1, now).permitted {
            admitted += 1;
        }
        now += 300_000; // 0.3ms between requests, far above the rate
    }
    let elapsed_secs = now as f64 / SEC as f64;
    let bound = capacity as f64 + rate as f64 * elapsed_secs + 1.0;
    assert!((admitted as f64) <= bound, "admitted {} > {}", admitted, bound);
    assert!(admitted + 1 >= (capacity as f64 + rate as f64 * elapsed_secs) as u64 - 1);
}

#[test]
fn leaky_bucket_admits_at_most_capacity_plus_leak() {
    let capacity = 10u64;
    let rate = 40u64;
    let mut bucket = LeakyBucket::new(capacity, rate);
    let mut admitted = 0u64;
    let mut now = 0u64;
    for _ in 0..4_000 {
        if bucket.check_at("k", 1, now).permitted {
            admitted += 1;
        }
        now += 500_000;
    }
    let bound = capacity as f64 + rate as f64 * (now as f64 / SEC as f64) + 1.0;
    assert!((admitted as f64) <= bound, "admitted {} > {}", admitted, bound);
}

#[test]
fn keys_do_not_affect_each_other() {
    let mut a = TokenBucket::new(3, 1);
    let mut b = TokenBucket::new(3, 1);
    for i in 0..10u64 {
        let _ = a.check_at("noisy", 1, i * MS);
    }
    for i in 0..5u64 {
        assert_eq!(a.check_at("quiet", 1, 20 * MS + i), b.check_at("quiet", 1, 20 * MS + i));
    }
}

#[test]
fn zero_cost_changes_nothing() {
    let mut bucket = ProbabilisticTokenBucket::new(5, 5, 1);
    assert!(bucket.check_at("k", 2, 0).permitted);
    let before = bucket.check_at("k", 0, 0);
    assert!(!before.permitted);
    let d = bucket.check_at("k", 3, 0);
    assert!(d.permitted);
    assert_eq!(d.remaining, Some(0));
}

#[test]
fn idle_keys_are_swept_and_busy_keys_kept() {
    let mut bucket = TokenBucket::with_ttl(5, 5, SEC);
    let _ = bucket.check_at("old", 1, 0);
    let mut t = 0u64;
    // Keep "busy" touched every 10ms; "old" idles past the one-second TTL.
    while bucket.state_of("old").is_some() && t < 1_000 * SEC {
        t += 10 * MS;
        let _ = bucket.check_at("busy", 1, 2 * SEC + t);
    }
    assert!(bucket.state_of("old").is_none(), "an idle key must eventually be swept");
    assert!(bucket.state_of("busy").is_some());
}

#[test]
fn waiting_out_retry_after_is_enough() {
    for (capacity, rate, cost) in [(1u64, 3u64, 1u64), (5, 7, 3), (10, 1, 10), (4, 1_000, 2)] {
        let mut bucket = TokenBucket::new(capacity, rate);
        let mut t = 0u64;
        // Drain the bucket.
        while bucket.check_at("k", cost, t).permitted {}
        let denied = bucket.check_at("k", cost, t);
        assert!(!denied.permitted);
        let wait = denied.retry_after.unwrap() as u64;
        t += wait + 1;
        assert!(bucket.check_at("k", cost, t).permitted, "capacity {} rate {} cost {}", capacity, rate, cost);
    }
}

#[test]
fn waiting_out_leaky_retry_after_is_enough() {
    for (capacity, rate, cost) in [(1u64, 3u64, 1u64), (5, 7, 3), (10, 1, 10), (4, 1_000, 2)] {
        let mut bucket = LeakyBucket::new(capacity, rate);
        let t = 0u64;
        while bucket.check_at("k", cost, t).permitted {}
        let denied = bucket.check_at("k", cost, t);
        assert!(!denied.permitted);
        let wait = denied.retry_after.unwrap() as u64;
        assert!(bucket.check_at("k", cost, t + wait + 1).permitted);
    }
}

#[test]
fn refill_never_credits_a_nanosecond_twice() {
    // Capacity 1 plus a rate just under 2 tokens per nanosecond allows two
    // cost-1 checks within the first nanosecond.
    let mut bucket = TokenBucket::new(1, 1_999_999_999);
    let admitted = [0u64, 1, 1, 1]
        .iter()
        .filter(|t| bucket.check_at("k", 1, **t).permitted)
        .count();
    assert_eq!(admitted, 2);
    let s = bucket.state_of("k").unwrap();
    assert_eq!(s.last_refill_nanos, 1);
}

#[test]
fn fresh_key_admits_at_most_capacity_plus_rate_times_elapsed() {
    for (capacity, rate, step) in [(3u64, 1_500_000u64, 1u64), (1, 1_999_999_999, 1), (5, 7, 1_000_000)] {
        let mut bucket = TokenBucket::new(capacity, rate);
        let mut admitted = 0u64;
        let mut t = 0u64;
        for _ in 0..2_000 {
            if bucket.check_at("k", 1, t).permitted {
                admitted += 1;
            }
            t += step;
        }
        let last = t - step;
        let bound = capacity as u128 + (rate as u128 * last as u128) / 1_000_000_000;
        assert!((admitted as u128) <= bound, "{} > {}", admitted, bound);
    }
}

#[test]
fn unsampled_probabilistic_matches_token_bucket_over_long_gaps() {
    let mut prob = ProbabilisticTokenBucket::new(1_000, MAX_RATE_PER_SEC, 1);
    let mut plain = TokenBucket::new(1_000, MAX_RATE_PER_SEC);
    let mut t = 0u64;
    for i in 0..200u64 {
        let cost = 1 + i % 700;
        let a = prob.check_at("k", cost, t);
        let b = plain.check_at("k", cost, t);
        assert_eq!(a.permitted, b.permitted, "request {}", i);
        assert_eq!(a.remaining, b.remaining, "request {}", i);
        t += if i % 3 == 0 { 10 * SEC } else { 7 };
    }
}

#[test]
fn probabilistic_full_bucket_resets_at_zero_without_refill() {
    let mut prob = ProbabilisticTokenBucket::new(5, 0, 1);
    let d = prob.check_at("k", 6, 0);
    assert!(!d.permitted);
    assert_eq!(d.remaining, Some(5));
    assert_eq!(d.reset, Some(0));
    let mut plain = TokenBucket::new(5, 0);
    assert_eq!(plain.check_at("k", 6, 0).reset, None);
}

#[test]
fn built_and_new_limiters_decide_alike() {
    let mut built = tokio_rate_limit::RateLimiter::builder()
        .requests_per_second(4)
        .burst(6)
        .build()
        .unwrap();
    let mut made = tokio_rate_limit::RateLimiter::new(tokio_rate_limit::RateLimiterConfig {
        requests_per_second: 4,
        burst: 6,
    })
    .unwrap();
    let mut t = 0u64;
    for i in 0..200u64 {
        let key = if i % 3 == 0 { "a" } else { "b" };
        let cost = i % 4;
        assert_eq!(built.check_at(key, cost, t), made.check_at(key, cost, t), "check {}", i);
        t += 90 * MS;
    }
}

#[test]
fn denied_checks_never_lower_the_tokens() {
    let mut bucket = TokenBucket::new(3, 2);
    let mut last = None;
    for i in 0..50u64 {
        let d = bucket.check_at("k", 2, i * 100 * MS);
        let tokens = bucket.state_of("k").unwrap().tokens;
        if !d.permitted {
            if let Some(before) = last {
                assert!(tokens >= before);
            }
        }
        assert!(tokens <= 3_000);
        last = Some(tokens);
    }
}
