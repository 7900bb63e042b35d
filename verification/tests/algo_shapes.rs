use tokio_rate_limit::algorithm::{
    Algorithm, CachedTokenBucket, LeakyBucket, ProbabilisticTokenBucket, TokenBucket,
};
use tokio_rate_limit::{RateLimitDecision, RateLimiter, RateLimiterConfig};

const MS: u64 = 1_000_000;

fn assert_retry_after_fractional(decision: &RateLimitDecision) {
    assert!(!decision.permitted, "expected deny");
    let wait = decision.retry_after.expect("denied request must carry retry_after");
    let wait_ms = wait / 1_000_000;
    assert!(
        (50..=150).contains(&wait_ms),
        "retry_after should be ~100ms at 10 tok/s, got {}ms",
        wait_ms
    );
}

fn shapes<A: Algorithm>(make: impl Fn(u64, u64) -> A) {
    let mut bucket = make(1, 10);
    assert!(bucket.check_at("k", 1, 0).permitted);
    assert_retry_after_fractional(&bucket.check_at("k", 1, 0));

    let mut bucket = make(2, 10);
    assert!(bucket.check_at("a", 1, 0).permitted);
    assert!(bucket.check_at("a", 1, 0).permitted);
    assert!(!bucket.check_at("a", 1, 0).permitted);
    assert!(bucket.check_at("b", 1, 0).permitted);

    let mut bucket = make(5, 10);
    for _ in 0..5 {
        assert!(bucket.check_at("r", 1, 0).permitted);
    }
    assert!(!bucket.check_at("r", 1, 0).permitted);
    assert!(bucket.check_at("r", 1, 100 * MS).permitted);

    let mut bucket = make(10, 10);
    let denied = bucket.check_at("c", 0, 0);
    assert!(!denied.permitted);
    assert!(bucket.check_at("c", 1, 0).permitted);
}

#[test]
fn token_bucket_shapes() {
    shapes(TokenBucket::new);
}

#[test]
fn leaky_bucket_shapes() {
    shapes(LeakyBucket::new);
}

#[test]
fn probabilistic_exact_shapes() {
    shapes(|c, r| ProbabilisticTokenBucket::new(c, r, 1));
}

#[test]
fn cached_token_bucket_shapes() {
    shapes(CachedTokenBucket::new);
}

#[test]
fn probabilistic_hot_key_concurrent_bound() {
    let algorithm = ProbabilisticTokenBucket::new(1_000, 1_000, 10);
    let mut limiter = RateLimiter::from_algorithm(algorithm);
    let mut total = 0u64;
    for _ in 0..8 {
        for _ in 0..500 {
            if limiter.check_at("hot", 1, 0).permitted {
                total += 1;
            }
        }
    }
    assert!(
        total <= 1_000 + 8 * 10,
        "concurrent admits {total} exceeded capacity + threads * lump"
    );
}

#[test]
fn new_rejects_invalid_config() {
    assert!(RateLimiter::new(RateLimiterConfig { requests_per_second: 0, burst: 10 }).is_err());
    assert!(RateLimiter::new(RateLimiterConfig { requests_per_second: 10, burst: 0 }).is_err());
    assert!(RateLimiter::new(RateLimiterConfig { requests_per_second: 10, burst: 5 }).is_err());
    assert!(RateLimiter::new(RateLimiterConfig { requests_per_second: 10, burst: 10 }).is_ok());
}
