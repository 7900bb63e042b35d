use tokio_rate_limit::algorithm::{Algorithm, LeakyBucket};
use tokio_rate_limit::limiter::{
    acquire_step, acquire_timeout_step, AcquireStep, DEFAULT_ACQUIRE_SLEEP_NANOS,
};
use tokio_rate_limit::{Error, RateLimitDecision, RateLimiter, RateLimiterBuilder, RateLimiterConfig};

fn message(e: Error) -> String {
    match e {
        Error::Config(m) => m,
    }
}

#[test]
fn validate_reports_each_problem() {
    let ok = RateLimiterConfig { requests_per_second: 10, burst: 20 };
    assert!(ok.validate().is_ok());
    assert_eq!(
        message(RateLimiterConfig { requests_per_second: 0, burst: 20 }.validate().unwrap_err()),
        "requests_per_second must be greater than 0"
    );
    assert_eq!(
        message(RateLimiterConfig { requests_per_second: 10, burst: 0 }.validate().unwrap_err()),
        "burst must be greater than 0"
    );
    assert_eq!(
        message(RateLimiterConfig { requests_per_second: 10, burst: 9 }.validate().unwrap_err()),
        "burst must be greater than or equal to requests_per_second"
    );
}

#[test]
fn builder_requires_both_settings() {
    let e = RateLimiterBuilder::new().burst(5).build().err().unwrap();
    assert_eq!(message(e), "requests_per_second must be set");
    let e = RateLimiterBuilder::default().requests_per_second(5).build().err().unwrap();
    assert_eq!(message(e), "burst must be set");
    let e = RateLimiter::builder().requests_per_second(5).burst(4).build().err().unwrap();
    assert_eq!(message(e), "burst must be greater than or equal to requests_per_second");
    assert!(RateLimiter::builder().requests_per_second(5).burst(5).build().is_ok());
}

#[test]
fn built_limiter_allows_the_burst_then_denies() {
    let mut limiter = RateLimiter::builder().requests_per_second(3).burst(4).build().unwrap();
    for i in 0..4u64 {
        let d = limiter.check_at("k", 1, 0);
        assert!(d.permitted);
        assert_eq!(d.remaining, Some(3 - i));
        assert_eq!(d.limit, 4);
    }
    let d = limiter.check_at("k", 1, 0);
    assert!(!d.permitted);
    // One token at 3 per second: 333.333333ms, in whole nanoseconds.
    assert_eq!(d.retry_after, Some(333_333_333));
}

#[test]
fn try_acquire_is_check() {
    let mut limiter = RateLimiter::new(RateLimiterConfig { requests_per_second: 1, burst: 2 }).unwrap();
    assert!(limiter.try_acquire("k").permitted);
    assert!(limiter.try_acquire_n("k", 1).permitted);
    assert!(!limiter.try_acquire("k").permitted);
    assert!(!limiter.check_with_cost("k", 0).permitted);
    assert!(limiter.check("other").permitted);
}

#[test]
fn limiter_over_any_algorithm() {
    let mut limiter = RateLimiter::from_algorithm(LeakyBucket::new(2, 1));
    assert!(limiter.check_at("k", 2, 0).permitted);
    assert!(!limiter.check_at("k", 1, 0).permitted);
    assert_eq!(limiter.algorithm().len(), 1);
    let now = limiter.algorithm().now_nanos();
    assert!(now < u64::MAX);
}

#[test]
fn acquire_steps() {
    let permitted = RateLimitDecision {
        permitted: true,
        retry_after: None,
        remaining: Some(1),
        limit: 2,
        reset: Some(0),
    };
    let denied = RateLimitDecision {
        permitted: false,
        retry_after: Some(250_000_000),
        remaining: Some(0),
        limit: 2,
        reset: Some(0),
    };
    let bare = RateLimitDecision { permitted: false, retry_after: None, remaining: None, limit: 2, reset: None };
    assert_eq!(acquire_step(&permitted), AcquireStep::Done);
    assert_eq!(acquire_step(&denied), AcquireStep::Sleep(250_000_000));
    assert_eq!(acquire_step(&bare), AcquireStep::Sleep(DEFAULT_ACQUIRE_SLEEP_NANOS));
    assert_eq!(DEFAULT_ACQUIRE_SLEEP_NANOS, 10_000_000);

    assert_eq!(acquire_timeout_step(&permitted, 0, 1), AcquireStep::Done);
    assert_eq!(acquire_timeout_step(&denied, 1_000, 1_000), AcquireStep::Done);
    assert_eq!(acquire_timeout_step(&denied, 0, 1_000_000_000), AcquireStep::Sleep(250_000_000));
    assert_eq!(acquire_timeout_step(&denied, 900_000_000, 1_000_000_000), AcquireStep::Sleep(100_000_000));
}
