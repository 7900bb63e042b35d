//! The decisions of the HTTP rate limiting middleware.
//!
//! For each request the middleware extracts a key, asks the limiter, and then
//! either forwards the request with rate limit headers, lets it through
//! untouched, or answers 429 Too Many Requests. This module computes that
//! verdict and the headers; serving the response is left to the web framework.

use crate::algorithm::internal::spec_http_seconds_ceil;
use crate::algorithm::internal::http_seconds_ceil;
use crate::algorithm::Algorithm;
use crate::limiter::{RateLimitDecision, RateLimiter};
use vstd::prelude::*;
use vstd::string::*;

verus! {

/// The status code of a rejected request: 429 Too Many Requests.
pub const TOO_MANY_REQUESTS: u16 = 429;

/// A rate limit header of an HTTP response.
#[derive(Debug, Clone, Copy, PartialEq, Eq, Structural)]
pub enum HttpHeader {
    /// `RateLimit-Limit`: the configured limit (IETF draft).
    RateLimitLimit,
    /// `RateLimit-Remaining`: requests remaining (IETF draft).
    RateLimitRemaining,
    /// `RateLimit-Reset`: whole seconds until the bucket is full (IETF draft).
    RateLimitReset,
    /// `X-RateLimit-Limit`: legacy form of `RateLimit-Limit`.
    XRateLimitLimit,
    /// `X-RateLimit-Remaining`: legacy form of `RateLimit-Remaining`.
    XRateLimitRemaining,
    /// `Retry-After`: whole seconds to wait before retrying.
    RetryAfter,
}

/// The name of a rate limit header.
pub open spec fn http_header_name(h: HttpHeader) -> Seq<char> {
    match h {
        HttpHeader::RateLimitLimit => "RateLimit-Limit"@,
        HttpHeader::RateLimitRemaining => "RateLimit-Remaining"@,
        HttpHeader::RateLimitReset => "RateLimit-Reset"@,
        HttpHeader::XRateLimitLimit => "X-RateLimit-Limit"@,
        HttpHeader::XRateLimitRemaining => "X-RateLimit-Remaining"@,
        HttpHeader::RetryAfter => "Retry-After"@,
    }
}

impl HttpHeader {
    /// The header's name.
    pub fn name(&self) -> (res: &'static str)
        ensures
            res@ == http_header_name(*self),
    {
        match self {
            HttpHeader::RateLimitLimit => "RateLimit-Limit",
            HttpHeader::RateLimitRemaining => "RateLimit-Remaining",
            HttpHeader::RateLimitReset => "RateLimit-Reset",
            HttpHeader::XRateLimitLimit => "X-RateLimit-Limit",
            HttpHeader::XRateLimitRemaining => "X-RateLimit-Remaining",
            HttpHeader::RetryAfter => "Retry-After",
        }
    }
}

/// The headers added to a permitted response: the IETF `RateLimit-*`
/// headers, then the legacy `X-RateLimit-*` ones. Remaining and reset appear
/// only when the decision carries them; the reset is in whole seconds,
/// rounded up.
pub open spec fn spec_rate_limit_headers(d: RateLimitDecision) -> Seq<(HttpHeader, u64)> {
    seq![(HttpHeader::RateLimitLimit, d.limit)] + (match d.remaining {
        Some(r) => seq![(HttpHeader::RateLimitRemaining, r)],
        None => Seq::empty(),
    }) + (match d.reset {
        Some(t) => seq![(HttpHeader::RateLimitReset, spec_http_seconds_ceil(t))],
        None => Seq::empty(),
    }) + seq![(HttpHeader::XRateLimitLimit, d.limit)] + (match d.remaining {
        Some(r) => seq![(HttpHeader::XRateLimitRemaining, r)],
        None => Seq::empty(),
    })
}

/// The headers of a 429 response: those of [`spec_rate_limit_headers`],
/// then `Retry-After` in whole seconds, rounded up, when the decision has a
/// retry delay.
pub open spec fn spec_rate_limit_response(d: RateLimitDecision) -> Seq<(HttpHeader, u64)> {
    spec_rate_limit_headers(d) + (match d.retry_after {
        Some(t) => seq![(HttpHeader::RetryAfter, spec_http_seconds_ceil(t))],
        None => Seq::empty(),
    })
}

/// The headers of the 429 response to a request without a key.
pub open spec fn spec_missing_key_response() -> Seq<(HttpHeader, u64)> {
    seq![(HttpHeader::RetryAfter, 1u64)]
}

/// The headers of a 429 response answer the retry delay, and only it: a
/// denial with `retry_after = Some(t)` carries exactly one `Retry-After`
/// entry, last, whose value is `t` in whole seconds rounded up (so at least
/// 1 for any positive wait), whatever the reset; a denial without one
/// carries none. The forwarded headers never carry `Retry-After`.
pub proof fn lemma_retry_after_header(d: RateLimitDecision)
    ensures
        forall|i: int|
            0 <= i < spec_rate_limit_headers(d).len() ==> (#[trigger] spec_rate_limit_headers(d)[i]).0
                != HttpHeader::RetryAfter,
        forall|i: int|
            0 <= i < spec_rate_limit_response(d).len() - 1 ==> (#[trigger] spec_rate_limit_response(d)[i]).0
                != HttpHeader::RetryAfter,
        d.retry_after is None ==> forall|i: int|
            0 <= i < spec_rate_limit_response(d).len() ==> (#[trigger] spec_rate_limit_response(d)[i]).0
                != HttpHeader::RetryAfter,
        d.retry_after matches Some(t) ==> ({
            let h = spec_rate_limit_response(d);
            let v = h.last().1;
            &&& h.len() > 0
            &&& h.last().0 == HttpHeader::RetryAfter
            &&& t <= u64::MAX * 1_000_000_000 ==> v * 1_000_000_000 >= t
            &&& t > 0 ==> v >= 1 && (v - 1) * 1_000_000_000 < t
        }),
{
    let hs = spec_rate_limit_headers(d);
    assert forall|i: int| 0 <= i < hs.len() implies (#[trigger] hs[i]).0 != HttpHeader::RetryAfter by {
        let a = seq![(HttpHeader::RateLimitLimit, d.limit)];
        let b = match d.remaining {
            Some(r) => seq![(HttpHeader::RateLimitRemaining, r)],
            None => Seq::<(HttpHeader, u64)>::empty(),
        };
        let c = match d.reset {
            Some(t) => seq![(HttpHeader::RateLimitReset, spec_http_seconds_ceil(t))],
            None => Seq::<(HttpHeader, u64)>::empty(),
        };
        let e = seq![(HttpHeader::XRateLimitLimit, d.limit)];
        let f = match d.remaining {
            Some(r) => seq![(HttpHeader::XRateLimitRemaining, r)],
            None => Seq::<(HttpHeader, u64)>::empty(),
        };
        assert(hs == a + b + c + e + f);
        let ab = a + b;
        let abc = ab + c;
        let abce = abc + e;
        if i < ab.len() {
            if i < a.len() {
            } else {
                assert(ab[i] == b[i - a.len()]);
            }
            assert(abc[i] == ab[i]);
            assert(abce[i] == abc[i]);
        } else if i < abc.len() {
            assert(abc[i] == c[i - ab.len()]);
            assert(abce[i] == abc[i]);
        } else if i < abce.len() {
            assert(abce[i] == e[i - abc.len()]);
        } else {
            assert(hs[i] == f[i - abce.len()]);
        }
        if i < abce.len() {
            assert(hs[i] == abce[i]);
        }
    }
    let h = spec_rate_limit_response(d);
    match d.retry_after {
        Some(t) => {
            assert(h == hs.push((HttpHeader::RetryAfter, spec_http_seconds_ceil(t))));
            assert forall|i: int| 0 <= i < h.len() - 1 implies (#[trigger] h[i]).0 != HttpHeader::RetryAfter by {
                assert(h[i] == hs[i]);
            }
            let v = spec_http_seconds_ceil(t);
            if t > 0 {
                if (t + 999_999_999) / 1_000_000_000 > u64::MAX {
                    assert(v == u64::MAX);
                    assert((v - 1) * 1_000_000_000 < t) by (nonlinear_arith)
                        requires
                            (t + 999_999_999) / 1_000_000_000 > u64::MAX,
                            v == u64::MAX,
                    ;
                } else {
                    assert(v * 1_000_000_000 >= t && (v - 1) * 1_000_000_000 < t && v >= 1) by (nonlinear_arith)
                        requires
                            v == (t + 999_999_999) / 1_000_000_000,
                            t > 0,
                    ;
                }
            }
            if t <= u64::MAX * 1_000_000_000 {
                if t > 0 {
                    assert(v * 1_000_000_000 >= t) by (nonlinear_arith)
                        requires
                            t <= u64::MAX * 1_000_000_000,
                            t > 0,
                            v == (if (t + 999_999_999) / 1_000_000_000 > u64::MAX {
                                u64::MAX as int
                            } else {
                                (t + 999_999_999) / 1_000_000_000
                            }),
                    ;
                }
            }
        },
        None => {
            assert(h =~= hs);
        },
    }
}

/// The rate limit headers for a response, IETF standard and legacy.
pub fn add_rate_limit_headers(decision: &RateLimitDecision) -> (res: Vec<(HttpHeader, u64)>)
    ensures
        res@ == spec_rate_limit_headers(*decision),
{
    let mut headers: Vec<(HttpHeader, u64)> = Vec::new();
    headers.push((HttpHeader::RateLimitLimit, decision.limit));
    if let Some(remaining) = decision.remaining {
        headers.push((HttpHeader::RateLimitRemaining, remaining));
    }
    if let Some(reset) = decision.reset {
        headers.push((HttpHeader::RateLimitReset, http_seconds_ceil(reset)));
    }
    headers.push((HttpHeader::XRateLimitLimit, decision.limit));
    if let Some(remaining) = decision.remaining {
        headers.push((HttpHeader::XRateLimitRemaining, remaining));
    }
    proof {
        assert(headers@ =~= spec_rate_limit_headers(*decision));
    }
    headers
}

/// The headers of a 429 Too Many Requests response to a denied request.
pub fn rate_limit_response(decision: &RateLimitDecision) -> (res: Vec<(HttpHeader, u64)>)
    ensures
        res@ == spec_rate_limit_response(*decision),
{
    let mut headers = add_rate_limit_headers(decision);
    if let Some(retry_after) = decision.retry_after {
        headers.push((HttpHeader::RetryAfter, http_seconds_ceil(retry_after)));
    }
    proof {
        assert(headers@ =~= spec_rate_limit_response(*decision));
    }
    headers
}

/// The headers of the 429 response to a request whose key could not be
/// extracted: `Retry-After: 1`.
pub fn missing_key_response() -> (res: Vec<(HttpHeader, u64)>)
    ensures
        res@ == spec_missing_key_response(),
{
    let mut headers: Vec<(HttpHeader, u64)> = Vec::new();
    headers.push((HttpHeader::RetryAfter, 1));
    proof {
        assert(headers@ =~= spec_missing_key_response());
    }
    headers
}

/// What the middleware does with a request.
#[derive(Debug)]
pub enum HttpVerdict {
    /// Pass the request on and add these headers to the response.
    Forward(Vec<(HttpHeader, u64)>),
    /// Pass the request on untouched (no key, failing open).
    PassThrough,
    /// Answer 429 Too Many Requests, "Rate limit exceeded", with these headers.
    Reject(Vec<(HttpHeader, u64)>),
}

/// The verdict for a request, given its key (if one could be extracted) and
/// whether a missing key lets the request through.
///
/// Without a key the limiter is not consulted: the request passes through
/// when failing open and is rejected otherwise. With a key, one request is
/// checked against the limiter and the verdict follows its decision.
pub fn decide_request<A: Algorithm>(limiter: &mut RateLimiter<A>, key: Option<&str>, fail_open: bool) -> (res:
    HttpVerdict)
    requires
        old(limiter).wf(),
    ensures
        final(limiter).wf(),
        key is None ==> final(limiter)@ == old(limiter)@,
        key is None && fail_open ==> res is PassThrough,
        key is None && !fail_open ==> (res matches HttpVerdict::Reject(h) && h@
            == spec_missing_key_response()),
        key matches Some(k) ==> exists|now: u64, d: RateLimitDecision|
            (final(limiter)@, d) == A::step(old(limiter)@, k@, 1, now) && (if d.permitted {
                (res matches HttpVerdict::Forward(h) && h@ == spec_rate_limit_headers(d))
            } else {
                (res matches HttpVerdict::Reject(h) && h@ == spec_rate_limit_response(d))
            }),
{
    match key {
        None => {
            if fail_open {
                HttpVerdict::PassThrough
            } else {
                HttpVerdict::Reject(missing_key_response())
            }
        },
        Some(k) => {
            let ghost before = limiter@;
            let decision = limiter.check(k);
            let res = if decision.permitted {
                HttpVerdict::Forward(add_rate_limit_headers(&decision))
            } else {
                HttpVerdict::Reject(rate_limit_response(&decision))
            };
            proof {
                let t = choose|t: u64| (limiter@, decision) == A::step(before, k@, 1, t);
                assert((limiter@, decision) == A::step(before, k@, 1, t));
            }
            res
        },
    }
}

/// Key extractor that uses the client's IP address.
///
/// The peer address comes from the connection; without one there is no key
/// and the request fails closed unless the middleware fails open.
#[derive(Debug, Clone, Copy, Default)]
pub struct IpKeyExtractor;

impl IpKeyExtractor {
    /// The key for a request from `peer_ip` (the client's IP address, if the
    /// server recorded the connection's peer).
    pub fn extract(&self, peer_ip: Option<&str>) -> (res: Option<String>)
        ensures
            res is Some <==> peer_ip is Some,
            res matches Some(k) ==> k@ == peer_ip.unwrap()@,
    {
        match peer_ip {
            Some(ip) => Some(String::from_str(ip)),
            None => None,
        }
    }
}

} // verus!
