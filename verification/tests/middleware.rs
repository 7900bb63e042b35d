use tokio_rate_limit::middleware::{
    add_rate_limit_headers, decide_request, missing_key_response, rate_limit_response, HttpHeader,
    HttpVerdict, IpKeyExtractor, TOO_MANY_REQUESTS,
};
use tokio_rate_limit::{RateLimitDecision, RateLimiter};

fn has(headers: &[(HttpHeader, u64)], h: HttpHeader) -> bool {
    headers.iter().any(|(k, _)| *k == h)
}

fn value(headers: &[(HttpHeader, u64)], h: HttpHeader) -> Option<u64> {
    headers.iter().find(|(k, _)| *k == h).map(|(_, v)| *v)
}

fn limiter(rate: u64, burst: u64) -> RateLimiter {
    RateLimiter::builder().requests_per_second(rate).burst(burst).build().unwrap()
}

#[test]
fn test_rate_limit_allows_within_limit() {
    let mut limiter = limiter(10, 10);
    match decide_request(&mut limiter, Some("test-key"), false) {
        HttpVerdict::Forward(headers) => {
            assert!(has(&headers, HttpHeader::XRateLimitLimit));
            assert!(has(&headers, HttpHeader::XRateLimitRemaining));
        }
        other => panic!("expected the request to be forwarded, got {:?}", other),
    }
}

#[test]
fn test_rate_limit_blocks_over_limit() {
    let mut limiter = limiter(2, 2);
    for _ in 0..2 {
        assert!(matches!(
            decide_request(&mut limiter, Some("test-key"), false),
            HttpVerdict::Forward(_)
        ));
    }
    match decide_request(&mut limiter, Some("test-key"), false) {
        HttpVerdict::Reject(headers) => {
            assert!(has(&headers, HttpHeader::XRateLimitLimit));
            assert!(has(&headers, HttpHeader::RetryAfter));
        }
        other => panic!("expected a 429, got {:?}", other),
    }
}

#[test]
fn middleware_test_custom_key_extractor() {
    let mut limiter = limiter(1, 1);
    assert!(matches!(decide_request(&mut limiter, Some("user1"), false), HttpVerdict::Forward(_)));
    assert!(matches!(decide_request(&mut limiter, Some("user2"), false), HttpVerdict::Forward(_)));
    assert!(matches!(decide_request(&mut limiter, Some("user1"), false), HttpVerdict::Reject(_)));
}

#[test]
fn retry_after_header_is_at_least_one_second() {
    let mut limiter = limiter(10, 10);
    for _ in 0..10 {
        assert!(matches!(
            decide_request(&mut limiter, Some("test-key"), false),
            HttpVerdict::Forward(_)
        ));
    }
    match decide_request(&mut limiter, Some("test-key"), false) {
        HttpVerdict::Reject(headers) => {
            assert_eq!(
                value(&headers, HttpHeader::RetryAfter),
                Some(1),
                "sub-second wait must round up to 1s, not 0"
            );
        }
        other => panic!("expected a 429, got {:?}", other),
    }
}

#[test]
fn missing_key_fails_closed() {
    let mut limiter = limiter(100, 100);
    match decide_request(&mut limiter, None, false) {
        HttpVerdict::Reject(headers) => {
            assert_eq!(headers, vec![(HttpHeader::RetryAfter, 1)]);
        }
        other => panic!("expected a 429, got {:?}", other),
    }
    assert_eq!(TOO_MANY_REQUESTS, 429);
}

#[test]
fn missing_key_fail_open_opt_in() {
    let mut limiter = limiter(100, 100);
    assert!(matches!(decide_request(&mut limiter, None, true), HttpVerdict::PassThrough));
    assert_eq!(limiter.algorithm().len(), 0);
}

#[test]
fn headers_follow_the_decision() {
    let d = RateLimitDecision {
        permitted: true,
        retry_after: None,
        remaining: Some(7),
        limit: 10,
        reset: Some(1_500_000_000),
    };
    assert_eq!(
        add_rate_limit_headers(&d),
        vec![
            (HttpHeader::RateLimitLimit, 10),
            (HttpHeader::RateLimitRemaining, 7),
            (HttpHeader::RateLimitReset, 2),
            (HttpHeader::XRateLimitLimit, 10),
            (HttpHeader::XRateLimitRemaining, 7),
        ]
    );
    let denied = RateLimitDecision {
        permitted: false,
        retry_after: Some(100_000_000),
        remaining: None,
        limit: 3,
        reset: Some(0),
    };
    assert_eq!(
        rate_limit_response(&denied),
        vec![
            (HttpHeader::RateLimitLimit, 3),
            (HttpHeader::RateLimitReset, 0),
            (HttpHeader::XRateLimitLimit, 3),
            (HttpHeader::RetryAfter, 1),
        ]
    );
    assert_eq!(missing_key_response(), vec![(HttpHeader::RetryAfter, 1)]);
}

#[test]
fn header_names() {
    assert_eq!(HttpHeader::RateLimitLimit.name(), "RateLimit-Limit");
    assert_eq!(HttpHeader::RateLimitRemaining.name(), "RateLimit-Remaining");
    assert_eq!(HttpHeader::RateLimitReset.name(), "RateLimit-Reset");
    assert_eq!(HttpHeader::XRateLimitLimit.name(), "X-RateLimit-Limit");
    assert_eq!(HttpHeader::XRateLimitRemaining.name(), "X-RateLimit-Remaining");
    assert_eq!(HttpHeader::RetryAfter.name(), "Retry-After");
}

#[test]
fn ip_key_is_the_peer_address() {
    let e = IpKeyExtractor;
    assert_eq!(e.extract(Some("127.0.0.1")), Some("127.0.0.1".to_string()));
    assert_eq!(e.extract(None), None);
}
