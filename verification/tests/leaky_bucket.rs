use tokio_rate_limit::algorithm::leaky_bucket::{MAX_CAPACITY, MAX_LEAK_RATE};
use tokio_rate_limit::algorithm::{Algorithm, LeakyBucket};

const MS: u64 = 1_000_000;
const SEC: u64 = 1_000_000_000;

#[test]
fn test_leaky_bucket_basic() {
    let mut bucket = LeakyBucket::new(10, 100);

    // First request should succeed (bucket starts empty)
    let decision = bucket.check("test-key");
    assert!(decision.permitted, "First request should be permitted");

    let mut permitted_count = 1;
    for _ in 0..20 {
        let decision = bucket.check("test-key");
        if decision.permitted {
            permitted_count += 1;
        }
    }

    assert!(
        permitted_count <= 11,
        "Should have rate limited some requests, but allowed {}",
        permitted_count
    );
}

#[test]
fn test_leaky_bucket_leak_rate() {
    let mut bucket = LeakyBucket::new(5, 10); // 5 capacity, 10 per second leak rate

    for i in 0..5 {
        let decision = bucket.check_at("test-key", 1, 0);
        assert!(decision.permitted, "Request {} should be permitted", i + 1);
    }

    let decision = bucket.check_at("test-key", 1, 0);
    assert!(!decision.permitted, "Should be rate limited when full");

    // 100ms later one token has leaked at 10/sec
    let decision = bucket.check_at("test-key", 1, 100 * MS);
    assert!(decision.permitted, "Request should be permitted after leak");
}

#[test]
fn test_leaky_bucket_multiple_keys() {
    let mut bucket = LeakyBucket::new(2, 10);

    let _ = bucket.check("key1");
    let _ = bucket.check("key1");
    let decision = bucket.check("key1");
    assert!(!decision.permitted, "key1 should be rate limited");

    let decision = bucket.check("key2");
    assert!(decision.permitted, "key2 should be permitted");
}

#[test]
fn test_leaky_bucket_cost() {
    let mut bucket = LeakyBucket::new(10, 10);

    let decision = bucket.check_with_cost("test-key", 5);
    assert!(decision.permitted, "Cost 5 request should be permitted");

    let decision = bucket.check_with_cost("test-key", 6);
    assert!(!decision.permitted, "Cost 6 request should be denied");

    let decision = bucket.check_with_cost("test-key", 5);
    assert!(decision.permitted, "Cost 5 request should still work");
}

#[test]
fn test_leaky_bucket_ttl() {
    let mut bucket = LeakyBucket::with_ttl(10, 100, SEC);

    let _ = bucket.check_at("key1", 1, 0);
    assert_eq!(bucket.len(), 1);

    for _ in 0..200 {
        let _ = bucket.check_at("key2", 1, 2 * SEC);
    }

    let count = bucket.len();
    assert!((1..=2).contains(&count), "Expected 1-2 keys after TTL, got {}", count);
}

#[test]
fn leaky_decision_reports_remaining_room_and_drain_time() {
    let mut bucket = LeakyBucket::new(10, 4);
    let d = bucket.check_at("k", 3, 0);
    assert!(d.permitted);
    assert_eq!(d.remaining, Some(7));
    assert_eq!(d.limit, 10);
    assert_eq!(d.retry_after, None);
    // 3 tokens queued, draining at 4 per second: 750ms.
    assert_eq!(d.reset, Some(750_000_000));
    let s = bucket.state_of("k").unwrap();
    assert_eq!(s.tokens, 3_000);
}

#[test]
fn leaky_denial_waits_for_the_cost_to_drain() {
    let mut bucket = LeakyBucket::new(4, 2);
    assert!(bucket.check_at("k", 4, 0).permitted);
    let d = bucket.check_at("k", 3, 0);
    assert!(!d.permitted);
    assert_eq!(d.remaining, Some(0));
    // 3 tokens at 2 per second: 1.5s.
    assert_eq!(d.retry_after, Some(1_500_000_000));
}

#[test]
fn leaky_zero_cost_is_denied_without_state() {
    let mut bucket = LeakyBucket::new(4, 2);
    let d = bucket.check_at("k", 0, 0);
    assert!(!d.permitted);
    assert_eq!(d.remaining, None);
    assert_eq!(bucket.len(), 0);
}

#[test]
fn leaky_values_are_clamped() {
    let mut bucket = LeakyBucket::new(u64::MAX, u64::MAX);
    let d = bucket.check_at("k", 1, 0);
    assert!(d.permitted);
    assert_eq!(d.limit, MAX_CAPACITY);
    assert!(MAX_LEAK_RATE > 0);
}

#[test]
fn leaky_level_drains_fully_after_long_idle() {
    let mut bucket = LeakyBucket::new(5, 1);
    for _ in 0..5 {
        assert!(bucket.check_at("k", 1, 0).permitted);
    }
    assert!(!bucket.check_at("k", 1, 0).permitted);
    let d = bucket.check_at("k", 1, 100 * SEC);
    assert!(d.permitted);
    assert_eq!(d.remaining, Some(4));
}
