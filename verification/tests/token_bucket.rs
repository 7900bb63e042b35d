use tokio_rate_limit::algorithm::token_bucket::{MAX_BURST, MAX_RATE_PER_SEC, NUM_SHARDS};
use tokio_rate_limit::algorithm::{Algorithm, TokenBucket};

const MS: u64 = 1_000_000;
const SEC: u64 = 1_000_000_000;

#[test]
fn test_token_bucket_basic() {
    let mut bucket = TokenBucket::new(10, 100);

    // First 10 requests should succeed (burst capacity)
    for _ in 0..10 {
        let decision = bucket.check_at("test-key", 1, 0);
        assert!(decision.permitted, "Request should be permitted");
    }

    // 11th request should fail (bucket exhausted)
    let decision = bucket.check_at("test-key", 1, 0);
    assert!(!decision.permitted, "Request should be rate limited");
}

#[test]
fn test_token_bucket_refill() {
    let mut bucket = TokenBucket::new(5, 10); // 5 capacity, 10 per second

    // Exhaust the bucket
    for _ in 0..5 {
        let _ = bucket.check_at("test-key", 1, 0);
    }

    // Should be rate limited
    let decision = bucket.check_at("test-key", 1, 0);
    assert!(!decision.permitted);

    // 100ms later (1 token at 10/sec) it should work again
    let decision = bucket.check_at("test-key", 1, 100 * MS);
    assert!(decision.permitted, "Request should be permitted after refill");
}

#[test]
fn test_token_bucket_multiple_keys() {
    let mut bucket = TokenBucket::new(2, 10);

    // Key 1: exhaust bucket
    let _ = bucket.check("key1");
    let _ = bucket.check("key1");
    let decision = bucket.check("key1");
    assert!(!decision.permitted, "key1 should be rate limited");

    // Key 2: should still work (separate bucket)
    let decision = bucket.check("key2");
    assert!(decision.permitted, "key2 should be permitted");
}

#[test]
fn test_token_bucket_refill_deterministic() {
    let mut bucket = TokenBucket::new(10, 100); // 10 capacity, 100 tokens/sec

    for i in 0..10 {
        let decision = bucket.check_at("test-key", 1, 0);
        assert!(decision.permitted, "Request {} should be permitted", i + 1);
    }

    let decision = bucket.check_at("test-key", 1, 0);
    assert!(!decision.permitted, "Request should be rate limited");
    assert_eq!(decision.remaining, Some(0), "Should have 0 tokens remaining");

    // 100ms later: 10 tokens at 100/sec
    for i in 0..10 {
        let decision = bucket.check_at("test-key", 1, 100 * MS);
        assert!(decision.permitted, "Request {} should be permitted after refill", i + 1);
    }

    let decision = bucket.check_at("test-key", 1, 100 * MS);
    assert!(!decision.permitted, "Request should be rate limited again");
}

#[test]
fn test_token_bucket_partial_refill() {
    let mut bucket = TokenBucket::new(100, 100); // 100 capacity, 100 tokens/sec

    // Consume 50 tokens
    for _ in 0..50 {
        let _ = bucket.check_at("test-key", 1, 0);
    }

    // 200ms later: 20 tokens refilled, 70 in the bucket
    for i in 0..20 {
        let decision = bucket.check_at("test-key", 1, 200 * MS);
        assert!(decision.permitted, "Request {} should be permitted", i + 1);
    }

    let decision = bucket.check_at("test-key", 1, 200 * MS);
    assert!(decision.permitted, "Should still have tokens");
    assert!(
        decision.remaining.unwrap() == 49,
        "Should have 49 tokens remaining (50-1), got {}",
        decision.remaining.unwrap()
    );
}

#[test]
fn test_token_bucket_capacity_cap() {
    let mut bucket = TokenBucket::new(50, 100); // 50 capacity, 100 tokens/sec

    // One second in (would add 100 tokens, but capacity is 50)
    for i in 0..50 {
        let decision = bucket.check_at("test-key", 1, SEC);
        assert!(decision.permitted, "Request {} should be permitted", i + 1);
    }

    let decision = bucket.check_at("test-key", 1, SEC);
    assert!(!decision.permitted, "Should be rate limited at capacity");
}

#[test]
fn test_contended_refill_does_not_over_admit() {
    let mut bucket = TokenBucket::new(100, 1_000);
    for _ in 0..100 {
        assert!(bucket.check_at("hot", 1, 0).permitted);
    }
    // 50ms at 1000/s is 50 tokens; 8 callers of 20 requests each, in turn.
    let mut total = 0u64;
    for _ in 0..8 {
        for _ in 0..20 {
            if bucket.check_at("hot", 1, 50 * MS).permitted {
                total += 1;
            }
        }
    }
    assert!(total <= 60, "contended refill over-admitted: {total} (expected ~50)");
    assert_eq!(total, 50);
}

#[test]
fn test_retry_after_accurate() {
    let mut bucket = TokenBucket::new(1, 10); // 1 capacity, 10 tokens/sec

    let decision = bucket.check_at("test-key", 1, 0);
    assert!(decision.permitted);

    let decision = bucket.check_at("test-key", 1, 0);
    assert!(!decision.permitted);
    assert!(decision.retry_after.is_some());
    assert_eq!(decision.remaining, Some(0));

    let retry_after_ms = decision.retry_after.unwrap() / 1_000_000;
    assert!(
        (50..=150).contains(&retry_after_ms),
        "Retry after should be ~100ms, got {}ms",
        retry_after_ms
    );
    // Exactly one token's worth at 10 tokens/sec.
    assert_eq!(decision.retry_after, Some(100_000_000));
}

#[test]
fn test_overflow_protection() {
    let mut bucket = TokenBucket::new(u64::MAX, u64::MAX);

    assert_eq!(bucket.capacity(), MAX_BURST);
    assert_eq!(bucket.refill_rate_per_second(), MAX_RATE_PER_SEC);

    let decision = bucket.check("test-key");
    assert!(decision.permitted, "Should work with clamped values");
}

#[test]
fn test_saturating_arithmetic() {
    let mut bucket = TokenBucket::new(MAX_BURST, MAX_RATE_PER_SEC);

    for _ in 0..100 {
        let _ = bucket.check("test-key");
    }

    let _decision = bucket.check("test-key");
    let far = bucket.check_at("test-key", u64::MAX, u64::MAX);
    assert!(far.limit == MAX_BURST);
}

#[test]
fn token_bucket_test_ttl_eviction() {
    // 1-second TTL
    let mut bucket = TokenBucket::with_ttl(10, 100, SEC);

    let _ = bucket.check_at("key1", 1, 0);
    assert_eq!(bucket.len(), 1);

    // Two seconds later, past the TTL; cleanup is sampled on ~1% of checks.
    for _ in 0..200 {
        let _ = bucket.check_at("key2", 1, 2 * SEC);
    }

    let initial_count = bucket.len();
    assert!((1..=2).contains(&initial_count), "Expected 1-2 keys, got {}", initial_count);
    assert!(bucket.state_of("key2").is_some());
}

#[test]
fn test_no_ttl_keeps_keys() {
    let mut bucket = TokenBucket::new(10, 100);

    for i in 0..10 {
        let _ = bucket.check(&format!("key{}", i));
    }

    assert_eq!(bucket.len(), 10);
}

#[test]
fn zero_cost_is_denied_without_consuming() {
    let mut bucket = TokenBucket::new(3, 1);
    let denied = bucket.check_at("k", 0, 0);
    assert!(!denied.permitted);
    assert_eq!(denied.remaining, None);
    assert_eq!(denied.reset, None);
    assert_eq!(denied.retry_after, None);
    assert_eq!(denied.limit, 3);
    assert_eq!(bucket.len(), 0);
    let d = bucket.check_at("k", 1, 0);
    assert_eq!(d.remaining, Some(2));
}

#[test]
fn new_key_starts_full_and_reports_reset() {
    let mut bucket = TokenBucket::new(10, 5);
    let d = bucket.check_at("k", 4, 0);
    assert!(d.permitted);
    assert_eq!(d.remaining, Some(6));
    assert_eq!(d.limit, 10);
    assert_eq!(d.retry_after, None);
    // 4 tokens missing at 5 tokens/sec: 800ms until full.
    assert_eq!(d.reset, Some(800_000_000));
    let s = bucket.state_of("k").unwrap();
    assert_eq!(s.tokens, 6_000);
}

#[test]
fn denied_request_waits_for_the_missing_tokens() {
    let mut bucket = TokenBucket::new(2, 4);
    assert!(bucket.check_at("k", 2, 0).permitted);
    let d = bucket.check_at("k", 3, 0);
    assert!(!d.permitted);
    // 3 tokens at 4 per second: 750ms.
    assert_eq!(d.retry_after, Some(750_000_000));
    assert_eq!(d.remaining, Some(0));
}

#[test]
fn refill_never_exceeds_capacity_over_long_gaps() {
    let mut bucket = TokenBucket::new(3, 1_000);
    for t in 0..5u64 {
        let d = bucket.check_at("k", 1, t * 10 * SEC);
        assert!(d.permitted);
        assert_eq!(d.remaining, Some(2));
    }
}

#[test]
fn shard_index_is_within_range_and_stable() {
    let a = TokenBucket::get_shard_index("alpha");
    let b = TokenBucket::get_shard_index("alpha");
    assert_eq!(a, b);
    assert!(a < NUM_SHARDS);
    assert!(TokenBucket::get_shard_index("") < NUM_SHARDS);
}

#[test]
fn deprecated_constructors_match_new() {
    let a = TokenBucket::with_shard_count(7, 3, 16);
    assert_eq!(a.capacity(), 7);
    assert_eq!(a.refill_rate_per_second(), 3);
    let b = TokenBucket::with_ttl_and_shard_count(7, 3, SEC, 16);
    assert_eq!(b.capacity(), 7);
    assert_eq!(b.len(), 0);
}
