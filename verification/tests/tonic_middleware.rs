use tokio_rate_limit::tonic_middleware::{
    add_rate_limit_trailer, decide_grpc_request, grpc_code_to_http_status,
    missing_key_error_response, rate_limit_error_response, GrpcHeader, GrpcVerdict,
    IpKeyExtractor, MetadataKeyExtractor, MethodKeyExtractor, RESOURCE_EXHAUSTED,
};
use tokio_rate_limit::{RateLimitDecision, RateLimiter};
use tonic::Code;

fn value(headers: &[(GrpcHeader, u64)], h: GrpcHeader) -> Option<u64> {
    headers.iter().find(|(k, _)| *k == h).map(|(_, v)| *v)
}

const SEC: u128 = 1_000_000_000;

#[test]
fn test_method_key_extractor() {
    let extractor = MethodKeyExtractor;
    let key = extractor.extract("/helloworld.Greeter/SayHello");
    assert_eq!(key, Some("helloworld.Greeter/SayHello".to_string()));
}

#[test]
fn test_method_key_extractor_no_leading_slash() {
    let extractor = MethodKeyExtractor;
    let key = extractor.extract("/test.Service/Method");
    assert_eq!(key, Some("test.Service/Method".to_string()));
    assert_eq!(extractor.extract("test.Service/Method"), Some("test.Service/Method".to_string()));
}

#[test]
fn test_metadata_key_extractor() {
    let extractor = MetadataKeyExtractor::new("user-id".to_string());
    assert_eq!(extractor.header_name(), "user-id");
    let key = extractor.extract(Some("user-123"));
    assert_eq!(key, Some("user-123".to_string()));
}

#[test]
fn test_metadata_key_extractor_missing_header() {
    let extractor = MetadataKeyExtractor::new("user-id".to_string());
    let key = extractor.extract(None);
    assert_eq!(key, None);
}

#[test]
fn test_ip_key_extractor() {
    let extractor = IpKeyExtractor;
    let key = extractor.extract(Some("192.168.1.1, 10.0.0.1"), None);
    assert_eq!(key, Some("192.168.1.1".to_string()));
}

#[test]
fn test_ip_key_extractor_single_ip() {
    let extractor = IpKeyExtractor;
    let key = extractor.extract(Some("192.168.1.1"), None);
    assert_eq!(key, Some("192.168.1.1".to_string()));
}

#[test]
fn test_ip_key_extractor_x_real_ip() {
    let extractor = IpKeyExtractor;
    let key = extractor.extract(None, Some("10.0.0.1"));
    assert_eq!(key, Some("10.0.0.1".to_string()));
}

#[test]
fn test_ip_key_extractor_no_headers() {
    let extractor = IpKeyExtractor;
    let key = extractor.extract(None, None);
    assert_eq!(key, None);
}

#[test]
fn forwarded_for_entries_are_trimmed() {
    let extractor = IpKeyExtractor;
    assert_eq!(
        extractor.extract(Some("  203.0.113.7 ,10.0.0.1"), Some("10.9.9.9")),
        Some("203.0.113.7".to_string())
    );
}

#[test]
fn test_code_to_http_status() {
    assert_eq!(grpc_code_to_http_status(Code::Ok as i32), 200);
    assert_eq!(grpc_code_to_http_status(Code::ResourceExhausted as i32), 429);
    assert_eq!(grpc_code_to_http_status(Code::NotFound as i32), 404);
    assert_eq!(grpc_code_to_http_status(Code::InvalidArgument as i32), 400);
    assert_eq!(grpc_code_to_http_status(Code::Unauthenticated as i32), 401);
    assert_eq!(RESOURCE_EXHAUSTED, Code::ResourceExhausted as i32);
}

#[test]
fn test_rate_limit_error_response() {
    let decision = RateLimitDecision {
        permitted: false,
        limit: 100,
        remaining: Some(0),
        reset: Some(60 * SEC),
        retry_after: Some(SEC),
    };

    let response = rate_limit_error_response(&decision);

    assert_eq!(response.http_status, 429);
    assert_eq!(response.grpc_status, Code::ResourceExhausted as i32);
    assert_eq!(response.message, "Rate limit exceeded");
    assert_eq!(value(&response.metadata, GrpcHeader::XRateLimitLimit), Some(100));
    assert_eq!(value(&response.metadata, GrpcHeader::XRateLimitRemaining), Some(0));
    assert_eq!(value(&response.metadata, GrpcHeader::RetryAfter), Some(1));
    assert_eq!(value(&response.metadata, GrpcHeader::XRateLimitReset), Some(60));
}

#[test]
fn test_add_rate_limit_trailer() {
    let decision = RateLimitDecision {
        permitted: true,
        limit: 100,
        remaining: Some(75),
        reset: Some(60 * SEC),
        retry_after: None,
    };

    let headers = add_rate_limit_trailer(&decision);

    assert_eq!(value(&headers, GrpcHeader::XRateLimitLimit), Some(100));
    assert_eq!(value(&headers, GrpcHeader::XRateLimitRemaining), Some(75));
    assert_eq!(value(&headers, GrpcHeader::XRateLimitReset), Some(60));
}

#[test]
fn grpc_header_names() {
    assert_eq!(GrpcHeader::XRateLimitLimit.name(), "x-ratelimit-limit");
    assert_eq!(GrpcHeader::XRateLimitRemaining.name(), "x-ratelimit-remaining");
    assert_eq!(GrpcHeader::XRateLimitReset.name(), "x-ratelimit-reset");
    assert_eq!(GrpcHeader::RetryAfter.name(), "retry-after");
}

#[test]
fn test_missing_key_fails_closed() {
    let mut limiter = RateLimiter::builder().requests_per_second(1).burst(1).build().unwrap();
    match decide_grpc_request(&mut limiter, None, false) {
        GrpcVerdict::Reject(r) => {
            assert_eq!(r.http_status, 429);
            assert_eq!(r.grpc_status, RESOURCE_EXHAUSTED);
            assert_eq!(r.metadata, vec![(GrpcHeader::RetryAfter, 1)]);
        }
        other => panic!("expected RESOURCE_EXHAUSTED, got {:?}", other),
    }
    let direct = missing_key_error_response();
    assert_eq!(direct.http_status, 429);
}

#[test]
fn test_missing_key_fail_open() {
    let mut limiter = RateLimiter::builder().requests_per_second(1).burst(1).build().unwrap();
    for _ in 0..10 {
        assert!(matches!(decide_grpc_request(&mut limiter, None, true), GrpcVerdict::PassThrough));
    }
}

#[test]
fn test_basic_rate_limiting() {
    let mut limiter = RateLimiter::builder().requests_per_second(2).burst(2).build().unwrap();
    for i in 1..=2 {
        match decide_grpc_request(&mut limiter, Some("test.Service/Method"), false) {
            GrpcVerdict::Forward(h) => assert_eq!(value(&h, GrpcHeader::XRateLimitLimit), Some(2)),
            other => panic!("Request {} should succeed, got {:?}", i, other),
        }
    }
    match decide_grpc_request(&mut limiter, Some("test.Service/Method"), false) {
        GrpcVerdict::Reject(r) => {
            assert_eq!(r.http_status, 429, "Third request should be rate limited");
            assert!(value(&r.metadata, GrpcHeader::XRateLimitLimit).is_some());
            assert!(value(&r.metadata, GrpcHeader::RetryAfter).is_some());
        }
        other => panic!("expected RESOURCE_EXHAUSTED, got {:?}", other),
    }
}

fn status(v: &GrpcVerdict) -> u16 {
    match v {
        GrpcVerdict::Forward(_) | GrpcVerdict::PassThrough => 200,
        GrpcVerdict::Reject(r) => r.http_status,
    }
}

#[test]
fn test_per_method_rate_limiting() {
    let mut limiter = RateLimiter::builder().requests_per_second(1).burst(1).build().unwrap();
    let e = MethodKeyExtractor;
    let mut call = |path: &str| {
        let key = e.extract(path);
        status(&decide_grpc_request(&mut limiter, key.as_deref(), false))
    };
    assert_eq!(call("/test.Service/Method1"), 200);
    assert_eq!(call("/test.Service/Method1"), 429);
    assert_eq!(call("/test.Service/Method2"), 200);
    assert_eq!(call("/test.Service/Method2"), 429);
}

#[test]
fn test_ip_based_rate_limiting() {
    let mut limiter = RateLimiter::builder().requests_per_second(1).burst(1).build().unwrap();
    let e = IpKeyExtractor;
    let mut call = |ip: &str| {
        let key = e.extract(Some(ip), None);
        status(&decide_grpc_request(&mut limiter, key.as_deref(), false))
    };
    assert_eq!(call("192.168.1.1"), 200);
    assert_eq!(call("192.168.1.1"), 429);
    assert_eq!(call("192.168.1.2"), 200);
}

#[test]
fn test_metadata_based_rate_limiting() {
    let mut limiter = RateLimiter::builder().requests_per_second(1).burst(1).build().unwrap();
    let e = MetadataKeyExtractor::new("x-user-id".to_string());
    let mut call = |user: &str| {
        let key = e.extract(Some(user));
        status(&decide_grpc_request(&mut limiter, key.as_deref(), false))
    };
    assert_eq!(call("user-123"), 200);
    assert_eq!(call("user-123"), 429);
    assert_eq!(call("user-456"), 200);
}

#[test]
fn grpc_retry_after_rounds_up_to_a_whole_second() {
    let decision = RateLimitDecision {
        permitted: false,
        limit: 10,
        remaining: Some(0),
        reset: Some(900_000_000),
        retry_after: Some(100_000_000),
    };
    let response = rate_limit_error_response(&decision);
    assert_eq!(value(&response.metadata, GrpcHeader::RetryAfter), Some(1));
    assert_eq!(value(&response.metadata, GrpcHeader::XRateLimitReset), Some(0));
}
