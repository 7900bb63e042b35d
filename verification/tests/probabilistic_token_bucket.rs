use tokio_rate_limit::algorithm::probabilistic_token_bucket::NUM_SHARDS;
use tokio_rate_limit::algorithm::{Algorithm, ProbabilisticTokenBucket, TokenBucket};

const MS: u64 = 1_000_000;
const SEC: u64 = 1_000_000_000;

#[test]
fn test_basic_functionality() {
    // sample_rate = 1 is deterministic
    let mut bucket = ProbabilisticTokenBucket::new(10, 100, 1);

    for _ in 0..10 {
        let decision = bucket.check_at("test-key", 1, 0);
        assert!(decision.permitted);
    }

    let decision = bucket.check_at("test-key", 1, 0);
    assert!(!decision.permitted);
}

#[test]
fn test_multiple_keys() {
    let mut bucket = ProbabilisticTokenBucket::new(2, 10, 1);

    bucket.check("key1");
    bucket.check("key1");
    let decision = bucket.check("key1");
    assert!(!decision.permitted);

    let decision = bucket.check("key2");
    assert!(decision.permitted);
}

#[test]
fn test_refill() {
    let mut bucket = ProbabilisticTokenBucket::new(5, 10, 1);

    for _ in 0..5 {
        bucket.check_at("test-key", 1, 0);
    }

    let decision = bucket.check_at("test-key", 1, 0);
    assert!(!decision.permitted);

    let decision = bucket.check_at("test-key", 1, 100 * MS);
    assert!(decision.permitted);
}

#[test]
fn test_probabilistic_sampling() {
    let mut bucket = ProbabilisticTokenBucket::new(1_000_000, 1_000_000, 100);

    for i in 0..1000 {
        let key = format!("key-{}", i % 10);
        let _ = bucket.check(&key);
    }
    assert_eq!(bucket.len(), 10);
    assert_eq!(bucket.sample_rate(), 100);
}

#[test]
fn test_cost_based() {
    let mut bucket = ProbabilisticTokenBucket::new(100, 100, 1);

    let decision = bucket.check_with_cost("test-key", 50);
    assert!(decision.permitted);
    assert!(decision.remaining.unwrap() >= 40 && decision.remaining.unwrap() <= 50);

    let decision = bucket.check_with_cost("test-key", 50);
    assert!(decision.permitted);

    let decision = bucket.check_with_cost("test-key", 50);
    assert!(!decision.permitted);
}

#[test]
fn probabilistic_token_bucket_test_ttl_eviction() {
    let mut bucket = ProbabilisticTokenBucket::with_ttl(10, 100, 1, SEC);

    bucket.check_at("key1", 1, 0);
    assert_eq!(bucket.len(), 1);

    for _ in 0..200 {
        bucket.check_at("key2", 1, 2 * SEC);
    }

    let count = bucket.len();
    assert!((1..=2).contains(&count));
}

#[test]
fn burst_is_capped_at_capacity_for_every_sample_rate() {
    const CAPACITY: u64 = 200;
    const BURST: usize = 20_000;

    for sample_rate in [1u32, 10, 100] {
        let mut bucket = ProbabilisticTokenBucket::new(CAPACITY, 100, sample_rate);

        let mut allowed = 0u64;
        for _ in 0..BURST {
            if bucket.check_at("burst-key", 1, 0).permitted {
                allowed += 1;
            }
        }

        assert!(
            allowed <= CAPACITY,
            "sample_rate={sample_rate}: allowed {allowed} of {BURST} against capacity {CAPACITY}"
        );
        let floor = CAPACITY.saturating_sub(u64::from(sample_rate));
        assert!(
            allowed >= floor,
            "sample_rate={sample_rate}: allowed only {allowed}, expected at least {floor}"
        );
    }
}

#[test]
fn idle_refill_is_seen_by_unsampled_requests() {
    const CAP: u64 = 200;
    for sample_rate in [10u32, 100] {
        let mut bucket = ProbabilisticTokenBucket::new(CAP, 100, sample_rate);
        let key = "resume";

        for _ in 0..20_000 {
            bucket.check_at(key, 1, 0);
        }

        // Idle long enough to refill to capacity.
        let mut allowed = 0u64;
        for _ in 0..(CAP as usize) {
            if bucket.check_at(key, 1, 5 * SEC).permitted {
                allowed += 1;
            }
        }
        assert!(
            allowed >= CAP - u64::from(sample_rate),
            "sr={sample_rate}: only {allowed} of {CAP} admitted after idle refill"
        );
        assert!(allowed <= CAP, "sr={sample_rate}: {allowed} admitted exceeds capacity {CAP}");
    }
}

#[test]
fn test_burst_capacity() {
    let mut prob = ProbabilisticTokenBucket::new(50, 10, 1);

    let mut allowed = 0;
    for _ in 0..60 {
        if prob.check_at("test-key", 1, 0).permitted {
            allowed += 1;
        }
    }
    assert!((45..=55).contains(&allowed), "Burst allowed {} requests, expected ~50", allowed);
    assert_eq!(allowed, 50);
}

#[test]
fn test_key_isolation() {
    let mut prob = ProbabilisticTokenBucket::new(10, 10, 1);

    for _ in 0..10 {
        let _ = prob.check_at("key1", 1, 0);
    }

    let decision1 = prob.check_at("key1", 1, 0);
    assert!(!decision1.permitted, "key1 should be rate limited");

    let decision2 = prob.check_at("key2", 1, 0);
    assert!(decision2.permitted, "key2 should not be rate limited");
}

#[test]
fn test_cost_based_accuracy() {
    let mut prob = ProbabilisticTokenBucket::new(100, 100, 1);

    for _ in 0..3 {
        let decision = prob.check_at("test-key", 30, 0);
        assert!(decision.permitted);
    }

    let decision = prob.check_at("test-key", 30, 0);
    assert!(!decision.permitted, "Should not have enough tokens for cost=30");

    let decision = prob.check_at("test-key", 10, 0);
    assert!(decision.permitted, "Should have enough tokens for cost=10");
}

#[test]
fn unsampled_bucket_matches_token_bucket_exactly() {
    let mut prob = ProbabilisticTokenBucket::new(20, 7, 1);
    let mut plain = TokenBucket::new(20, 7);
    let mut now = 0u64;
    for i in 0..300u64 {
        let cost = 1 + (i % 4);
        let a = prob.check_at("k", cost, now);
        let b = plain.check_at("k", cost, now);
        assert_eq!(a, b, "request {}", i);
        now += 37 * MS;
    }
}

#[test]
fn probabilistic_zero_cost_is_denied() {
    let mut prob = ProbabilisticTokenBucket::new(20, 7, 10);
    let d = prob.check_at("k", 0, 0);
    assert!(!d.permitted);
    assert_eq!(d.remaining, None);
    assert_eq!(prob.len(), 0);
}

#[test]
fn probabilistic_shard_index_in_range() {
    assert!(ProbabilisticTokenBucket::get_shard_index("some key") < NUM_SHARDS);
}
