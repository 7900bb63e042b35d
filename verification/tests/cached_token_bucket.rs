use tokio_rate_limit::algorithm::{Algorithm, CachedTokenBucket, TokenBucket};

const MS: u64 = 1_000_000;
const SEC: u64 = 1_000_000_000;

#[test]
fn test_cached_token_bucket_basic() {
    let mut bucket = CachedTokenBucket::new(10, 100);

    for _ in 0..10 {
        let decision = bucket.check_at("test-key", 1, 0);
        assert!(decision.permitted);
    }

    let decision = bucket.check_at("test-key", 1, 0);
    assert!(!decision.permitted);
}

#[test]
fn test_cached_token_bucket_refill() {
    let mut bucket = CachedTokenBucket::new(10, 100);

    for _ in 0..10 {
        let _ = bucket.check_at("test-key", 1, 0);
    }

    let decision = bucket.check_at("test-key", 1, 0);
    assert!(!decision.permitted);

    for _ in 0..10 {
        let decision = bucket.check_at("test-key", 1, 100 * MS);
        assert!(decision.permitted);
    }
}

#[test]
fn test_cached_token_bucket_hot_keys() {
    let mut bucket = CachedTokenBucket::new(1000, 1000);

    for _ in 0..20 {
        let _ = bucket.check("hot-key");
    }

    for _ in 0..100 {
        let _ = bucket.check("hot-key");
    }
    assert!(bucket.cache_hits() > 0, "a hot key should be served from the cache");
}

#[test]
fn cached_bucket_decides_as_the_token_bucket() {
    let mut cached = CachedTokenBucket::new(7, 3);
    let mut plain = TokenBucket::new(7, 3);
    let times = [0u64, 0, 10 * MS, 200 * MS, 200 * MS, SEC, SEC, 3 * SEC];
    let costs = [1u64, 3, 2, 4, 1, 2, 9, 1];
    for i in 0..times.len() {
        for key in ["a", "b"] {
            let c = cached.check_at(key, costs[i], times[i]);
            let p = plain.check_at(key, costs[i], times[i]);
            assert_eq!(c, p, "step {} key {}", i, key);
        }
    }
}

#[test]
fn cached_bucket_with_ttl_never_caches() {
    let mut bucket = CachedTokenBucket::with_ttl(100, 100, SEC);
    for _ in 0..50 {
        let _ = bucket.check_at("k", 1, 0);
    }
    assert_eq!(bucket.cache_hits(), 0);
}
