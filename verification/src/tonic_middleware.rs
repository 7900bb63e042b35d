//! The decisions of the gRPC rate limiting middleware.
//!
//! Keys are extracted from a request's method path or headers; a request is
//! then forwarded with rate limit metadata, let through, or answered with a
//! `RESOURCE_EXHAUSTED` status. This module holds the extraction rules, the
//! status mapping and the metadata; moving bytes is left to the gRPC stack.

use crate::algorithm::internal::{http_seconds_ceil, spec_http_seconds_ceil, spec_whole_seconds, whole_seconds};
use crate::algorithm::Algorithm;
use crate::limiter::{RateLimitDecision, RateLimiter};
use vstd::prelude::*;
use vstd::string::*;

verus! {

/// Whether `c` is white space in the sense of Unicode's `White_Space`
/// property (what `char::is_whitespace` and `str::trim` use).
pub open spec fn is_white_space(c: char) -> bool {
    let v = c as u32;
    ||| 0x09 <= v <= 0x0d
    ||| v == 0x20
    ||| v == 0x85
    ||| v == 0xa0
    ||| v == 0x1680
    ||| 0x2000 <= v <= 0x200a
    ||| v == 0x2028
    ||| v == 0x2029
    ||| v == 0x202f
    ||| v == 0x205f
    ||| v == 0x3000
}

/// Whether `c` is white space.
pub fn white_space(c: char) -> (res: bool)
    ensures
        res == is_white_space(c),
{
    let v = c as u32;
    (0x09 <= v && v <= 0x0d) || v == 0x20 || v == 0x85 || v == 0xa0 || v == 0x1680 || (0x2000 <= v
        && v <= 0x200a) || v == 0x2028 || v == 0x2029 || v == 0x202f || v == 0x205f || v == 0x3000
}

/// Whether `t` is `s` without its leading and trailing white space.
pub open spec fn is_trimmed_of(t: Seq<char>, s: Seq<char>) -> bool {
    exists|a: int, b: int|
        #![trigger s.subrange(a, b)]
        0 <= a <= b <= s.len() && t == s.subrange(a, b) && (forall|j: int|
            0 <= j < a ==> is_white_space(#[trigger] s[j])) && (forall|j: int|
            b <= j < s.len() ==> is_white_space(#[trigger] s[j])) && (a == b || (!is_white_space(
            s[a],
        ) && !is_white_space(s[b - 1]))) && (a == b ==> forall|j: int|
            0 <= j < s.len() ==> is_white_space(#[trigger] s[j]))
}

/// Whether `t` is the part of `s` before its first comma (all of `s` when
/// it has none).
pub open spec fn is_first_segment_of(t: Seq<char>, s: Seq<char>) -> bool {
    exists|e: int|
        #![trigger s.subrange(0, e)]
        0 <= e <= s.len() && t == s.subrange(0, e) && (e == s.len() || s[e] == ',') && forall|j: int|
            0 <= j < e ==> #[trigger] s[j] != ','
}

/// The part of `s` before its first comma.
pub fn first_segment(s: &str) -> (res: String)
    ensures
        is_first_segment_of(res@, s@),
{
    let n = s.unicode_len();
    let mut e: usize = 0;
    while e < n && s.get_char(e) != ','
        invariant
            n == s@.len(),
            e <= n,
            forall|j: int| 0 <= j < e ==> #[trigger] s@[j] != ',',
        decreases n - e,
    {
        e = e + 1;
    }
    let res = String::from_str(s.substring_char(0, e));
    assert(is_first_segment_of(res@, s@) && res@ == s@.subrange(0, e as int));
    res
}

/// `s` without leading and trailing white space.
pub fn trim(s: &str) -> (res: String)
    ensures
        is_trimmed_of(res@, s@),
{
    let n = s.unicode_len();
    let mut a: usize = 0;
    while a < n && white_space(s.get_char(a))
        invariant
            n == s@.len(),
            a <= n,
            forall|j: int| 0 <= j < a ==> is_white_space(#[trigger] s@[j]),
        decreases n - a,
    {
        a = a + 1;
    }
    let mut b: usize = n;
    while b > a && white_space(s.get_char(b - 1))
        invariant
            n == s@.len(),
            a <= b <= n,
            forall|j: int| 0 <= j < a ==> is_white_space(#[trigger] s@[j]),
            forall|j: int| b <= j < n ==> is_white_space(#[trigger] s@[j]),
            a < n ==> !is_white_space(s@[a as int]),
        decreases b - a,
    {
        b = b - 1;
    }
    let res = String::from_str(s.substring_char(a, b));
    proof {
        if a == b {
            assert forall|j: int| 0 <= j < s@.len() implies is_white_space(#[trigger] s@[j]) by {
                if j >= a {
                    assert(b <= j);
                }
            }
        }
        assert(res@ == s@.subrange(a as int, b as int));
    }
    res
}

/// Key extractor that uses the gRPC method path, so that each RPC method is
/// limited on its own: for `/helloworld.Greeter/SayHello` the key is
/// `helloworld.Greeter/SayHello`.
#[derive(Debug, Clone, Copy, Default)]
pub struct MethodKeyExtractor;

/// The method key of a request path: the path without one leading `/`.
pub open spec fn spec_method_key(path: Seq<char>) -> Seq<char> {
    if path.len() > 0 && path[0] == '/' {
        path.subrange(1, path.len() as int)
    } else {
        path
    }
}

/// The method key of a path that starts with `/` is the rest of the path,
/// character for character: one character shorter, with the `i`-th key
/// character the path's `i + 1`-th. Any other path is its own key.
pub proof fn lemma_method_key_is_rest_of_path(path: Seq<char>)
    ensures
        path.len() > 0 && path[0] == '/' ==> {
            let k = spec_method_key(path);
            &&& k.len() == path.len() - 1
            &&& forall|i: int| 0 <= i < k.len() ==> #[trigger] k[i] == path[i + 1]
        },
        !(path.len() > 0 && path[0] == '/') ==> spec_method_key(path) == path,
{
}

/// Distinct method paths are limited separately: two different paths that
/// start with `/` never share a key.
pub proof fn lemma_method_keys_distinct(p1: Seq<char>, p2: Seq<char>)
    requires
        p1.len() > 0 && p1[0] == '/',
        p2.len() > 0 && p2[0] == '/',
        p1 != p2,
    ensures
        spec_method_key(p1) != spec_method_key(p2),
{
    lemma_method_key_is_rest_of_path(p1);
    lemma_method_key_is_rest_of_path(p2);
    if spec_method_key(p1) == spec_method_key(p2) {
        let k = spec_method_key(p1);
        assert(p1.len() == p2.len());
        assert forall|i: int| 0 <= i < p1.len() implies p1[i] == p2[i] by {
            if i > 0 {
                assert(k[i - 1] == p1[i] && k[i - 1] == p2[i]);
            }
        }
        assert(p1 =~= p2);
    }
}

impl MethodKeyExtractor {
    /// The key for a request to `path` (the URI path).
    pub fn extract(&self, path: &str) -> (res: Option<String>)
        ensures
            res matches Some(k) && k@ == spec_method_key(path@),
    {
        let n = path.unicode_len();
        if n > 0 && path.get_char(0) == '/' {
            Some(String::from_str(path.substring_char(1, n)))
        } else {
            Some(String::from_str(path))
        }
    }
}

/// Key extractor that uses the client IP address from the `x-forwarded-for`
/// header (its first entry) or, failing that, the `x-real-ip` header.
#[derive(Debug, Clone, Copy, Default)]
pub struct IpKeyExtractor;

impl IpKeyExtractor {
    /// The key for a request whose `x-forwarded-for` and `x-real-ip` headers
    /// have the given values (`None` when a header is absent or not visible
    /// ASCII).
    pub fn extract(&self, forwarded_for: Option<&str>, real_ip: Option<&str>) -> (res: Option<String>)
        ensures
            forwarded_for matches Some(f) ==> (res matches Some(k) && exists|seg: Seq<char>|
                is_first_segment_of(seg, f@) && is_trimmed_of(k@, seg)),
            forwarded_for is None ==> (res is Some <==> real_ip is Some),
            forwarded_for is None ==> (res matches Some(k) ==> k@ == real_ip.unwrap()@),
    {
        match forwarded_for {
            Some(f) => {
                let seg = first_segment(f);
                let k = trim(seg.as_str());
                Some(k)
            },
            None => match real_ip {
                Some(r) => Some(String::from_str(r)),
                None => None,
            },
        }
    }
}

/// Key extractor that uses a metadata header of the request, such as a user
/// ID, API key or tenant ID.
#[derive(Debug, Clone)]
pub struct MetadataKeyExtractor {
    header_name: String,
}

impl MetadataKeyExtractor {
    /// The metadata header this extractor reads.
    pub closed spec fn spec_header_name(&self) -> Seq<char> {
        self.header_name@
    }

    /// Creates a new metadata key extractor for the header `header_name`
    /// (e.g. "user-id", "x-api-key").
    pub fn new(header_name: String) -> (res: Self)
        ensures
            res.spec_header_name() == header_name@,
    {
        MetadataKeyExtractor { header_name }
    }

    /// The metadata header this extractor reads.
    pub fn header_name(&self) -> (res: &str)
        ensures
            res@ == self.spec_header_name(),
    {
        self.header_name.as_str()
    }

    /// The key for a request whose header has `value` (`None` when the
    /// header is absent or not visible ASCII).
    pub fn extract(&self, value: Option<&str>) -> (res: Option<String>)
        ensures
            res is Some <==> value is Some,
            res matches Some(k) ==> k@ == value.unwrap()@,
    {
        match value {
            Some(v) => Some(String::from_str(v)),
            None => None,
        }
    }
}

/// The gRPC status code `RESOURCE_EXHAUSTED`.
pub const RESOURCE_EXHAUSTED: i32 = 8;

/// The HTTP status for a gRPC status code; unknown codes count as `UNKNOWN`.
pub open spec fn spec_grpc_code_to_http_status(code: i32) -> u16 {
    if code == 0 {
        200
    } else if code == 1 {
        499
    } else if code == 2 {
        500
    } else if code == 3 {
        400
    } else if code == 4 {
        504
    } else if code == 5 {
        404
    } else if code == 6 {
        409
    } else if code == 7 {
        403
    } else if code == 8 {
        429
    } else if code == 9 {
        412
    } else if code == 10 {
        409
    } else if code == 11 {
        400
    } else if code == 12 {
        501
    } else if code == 13 {
        500
    } else if code == 14 {
        503
    } else if code == 15 {
        500
    } else if code == 16 {
        401
    } else {
        500
    }
}

/// Converts a gRPC status code to an HTTP status code.
pub fn grpc_code_to_http_status(code: i32) -> (res: u16)
    ensures
        res == spec_grpc_code_to_http_status(code),
{
    match code {
        0 => 200,
        1 => 499,
        2 => 500,
        3 => 400,
        4 => 504,
        5 => 404,
        6 => 409,
        7 => 403,
        8 => 429,
        9 => 412,
        10 => 409,
        11 => 400,
        12 => 501,
        13 => 500,
        14 => 503,
        15 => 500,
        16 => 401,
        _ => 500,
    }
}

/// A rate limit metadata entry of a gRPC response.
#[derive(Debug, Clone, Copy, PartialEq, Eq, Structural)]
pub enum GrpcHeader {
    /// `x-ratelimit-limit`: the configured limit.
    XRateLimitLimit,
    /// `x-ratelimit-remaining`: requests remaining.
    XRateLimitRemaining,
    /// `x-ratelimit-reset`: whole seconds until the bucket is full.
    XRateLimitReset,
    /// `retry-after`: whole seconds to wait before retrying.
    RetryAfter,
}

/// The name of a rate limit metadata entry.
pub open spec fn grpc_header_name(h: GrpcHeader) -> Seq<char> {
    match h {
        GrpcHeader::XRateLimitLimit => "x-ratelimit-limit"@,
        GrpcHeader::XRateLimitRemaining => "x-ratelimit-remaining"@,
        GrpcHeader::XRateLimitReset => "x-ratelimit-reset"@,
        GrpcHeader::RetryAfter => "retry-after"@,
    }
}

impl GrpcHeader {
    /// The entry's name.
    pub fn name(&self) -> (res: &'static str)
        ensures
            res@ == grpc_header_name(*self),
    {
        match self {
            GrpcHeader::XRateLimitLimit => "x-ratelimit-limit",
            GrpcHeader::XRateLimitRemaining => "x-ratelimit-remaining",
            GrpcHeader::XRateLimitReset => "x-ratelimit-reset",
            GrpcHeader::RetryAfter => "retry-after",
        }
    }
}

/// The metadata added to a forwarded response: limit, remaining (when
/// known) and reset in whole seconds, rounded down (when known).
pub open spec fn spec_rate_limit_trailer(d: RateLimitDecision) -> Seq<(GrpcHeader, u64)> {
    seq![(GrpcHeader::XRateLimitLimit, d.limit)] + (match d.remaining {
        Some(r) => seq![(GrpcHeader::XRateLimitRemaining, r)],
        None => Seq::empty(),
    }) + (match d.reset {
        Some(t) => seq![(GrpcHeader::XRateLimitReset, spec_whole_seconds(t))],
        None => Seq::empty(),
    })
}

/// The rate limit metadata added to a forwarded response.
pub fn add_rate_limit_trailer(decision: &RateLimitDecision) -> (res: Vec<(GrpcHeader, u64)>)
    ensures
        res@ == spec_rate_limit_trailer(*decision),
{
    let mut headers: Vec<(GrpcHeader, u64)> = Vec::new();
    headers.push((GrpcHeader::XRateLimitLimit, decision.limit));
    if let Some(remaining) = decision.remaining {
        headers.push((GrpcHeader::XRateLimitRemaining, remaining));
    }
    if let Some(reset) = decision.reset {
        headers.push((GrpcHeader::XRateLimitReset, whole_seconds(reset)));
    }
    proof {
        assert(headers@ =~= spec_rate_limit_trailer(*decision));
    }
    headers
}

/// A `RESOURCE_EXHAUSTED` answer: its HTTP status, gRPC status code,
/// message, and rate limit metadata (in this order, after `grpc-status` and
/// `grpc-message`).
#[derive(Debug)]
pub struct GrpcRejection {
    /// The HTTP status of the response.
    pub http_status: u16,
    /// The gRPC status code.
    pub grpc_status: i32,
    /// The gRPC status message.
    pub message: String,
    /// The rate limit metadata.
    pub metadata: Vec<(GrpcHeader, u64)>,
}

/// The metadata of a rejection: limit, remaining, retry-after and reset,
/// each present when the decision carries it. The retry delay is in whole
/// seconds rounded up, so a positive wait is never sent as 0; the reset is
/// in whole seconds rounded down.
pub open spec fn spec_rejection_metadata(d: RateLimitDecision) -> Seq<(GrpcHeader, u64)> {
    seq![(GrpcHeader::XRateLimitLimit, d.limit)] + (match d.remaining {
        Some(r) => seq![(GrpcHeader::XRateLimitRemaining, r)],
        None => Seq::empty(),
    }) + (match d.retry_after {
        Some(t) => seq![(GrpcHeader::RetryAfter, spec_http_seconds_ceil(t))],
        None => Seq::empty(),
    }) + (match d.reset {
        Some(t) => seq![(GrpcHeader::XRateLimitReset, spec_whole_seconds(t))],
        None => Seq::empty(),
    })
}

/// A rejection answers the retry delay, and only it: a denial with
/// `retry_after = Some(t)` carries exactly one `retry-after` entry, whose
/// value is `t` in whole seconds rounded up (at least 1 for any positive
/// wait), whatever the reset; a denial without one carries none.
pub proof fn lemma_rejection_retry_after(d: RateLimitDecision)
    ensures
        d.retry_after is None ==> forall|i: int|
            0 <= i < spec_rejection_metadata(d).len() ==> (#[trigger] spec_rejection_metadata(d)[i]).0
                != GrpcHeader::RetryAfter,
        d.retry_after matches Some(t) ==> exists|i: int|
            0 <= i < spec_rejection_metadata(d).len() && (#[trigger] spec_rejection_metadata(d)[i]).0
                == GrpcHeader::RetryAfter && (forall|j: int|
                0 <= j < spec_rejection_metadata(d).len() && j != i ==> (#[trigger] spec_rejection_metadata(
                    d,
                )[j]).0 != GrpcHeader::RetryAfter) && (t <= u64::MAX * 1_000_000_000
                ==> spec_rejection_metadata(d)[i].1 * 1_000_000_000 >= t) && (t > 0
                ==> spec_rejection_metadata(d)[i].1 >= 1 && (spec_rejection_metadata(d)[i].1 - 1)
                * 1_000_000_000 < t),
{
    let a = seq![(GrpcHeader::XRateLimitLimit, d.limit)];
    let b = match d.remaining {
        Some(r) => seq![(GrpcHeader::XRateLimitRemaining, r)],
        None => Seq::<(GrpcHeader, u64)>::empty(),
    };
    let c = match d.retry_after {
        Some(t) => seq![(GrpcHeader::RetryAfter, spec_http_seconds_ceil(t))],
        None => Seq::<(GrpcHeader, u64)>::empty(),
    };
    let e = match d.reset {
        Some(t) => seq![(GrpcHeader::XRateLimitReset, spec_whole_seconds(t))],
        None => Seq::<(GrpcHeader, u64)>::empty(),
    };
    let m = spec_rejection_metadata(d);
    let ab = a + b;
    let abc = ab + c;
    assert(m == abc + e);
    assert forall|j: int| 0 <= j < m.len() && !(ab.len() <= j < abc.len()) implies (#[trigger] m[j]).0
        != GrpcHeader::RetryAfter by {
        if j < ab.len() {
            assert(m[j] == abc[j]);
            assert(abc[j] == ab[j]);
            if j >= a.len() {
                assert(ab[j] == b[j - a.len()]);
            }
        } else {
            assert(m[j] == e[j - abc.len()]);
        }
    }
    match d.retry_after {
        Some(t) => {
            let i = ab.len() as int;
            assert(m[i] == abc[i]);
            assert(abc[i] == c[0]);
            let v = spec_http_seconds_ceil(t);
            assert(m[i] == (GrpcHeader::RetryAfter, v));
            if t > 0 {
                if (t + 999_999_999) / 1_000_000_000 > u64::MAX {
                    assert((v - 1) * 1_000_000_000 < t) by (nonlinear_arith)
                        requires
                            (t + 999_999_999) / 1_000_000_000 > u64::MAX,
                            v == u64::MAX,
                    ;
                } else {
                    assert(v * 1_000_000_000 >= t && (v - 1) * 1_000_000_000 < t && v >= 1) by (nonlinear_arith)
                        requires
                            v == (t + 999_999_999) / 1_000_000_000,
                            t > 0,
                    ;
                }
                if t <= u64::MAX * 1_000_000_000 {
                    assert(v * 1_000_000_000 >= t) by (nonlinear_arith)
                        requires
                            t <= u64::MAX * 1_000_000_000,
                            t > 0,
                            v == (if (t + 999_999_999) / 1_000_000_000 > u64::MAX {
                                u64::MAX as int
                            } else {
                                (t + 999_999_999) / 1_000_000_000
                            }),
                    ;
                }
            }
            assert(forall|j: int| 0 <= j < m.len() && j != i ==> (#[trigger] m[j]).0 != GrpcHeader::RetryAfter);
        },
        None => {
            assert(abc =~= ab);
        },
    }
}

/// Whether `r` is a `RESOURCE_EXHAUSTED` answer, "Rate limit exceeded", with
/// the given metadata.
pub open spec fn is_rejection_with(r: GrpcRejection, metadata: Seq<(GrpcHeader, u64)>) -> bool {
    &&& r.http_status == spec_grpc_code_to_http_status(RESOURCE_EXHAUSTED)
    &&& r.grpc_status == RESOURCE_EXHAUSTED
    &&& r.message@ == "Rate limit exceeded"@
    &&& r.metadata@ == metadata
}

/// The `RESOURCE_EXHAUSTED` answer to a denied request.
pub fn rate_limit_error_response(decision: &RateLimitDecision) -> (res: GrpcRejection)
    ensures
        is_rejection_with(res, spec_rejection_metadata(*decision)),
{
    let mut metadata: Vec<(GrpcHeader, u64)> = Vec::new();
    metadata.push((GrpcHeader::XRateLimitLimit, decision.limit));
    if let Some(remaining) = decision.remaining {
        metadata.push((GrpcHeader::XRateLimitRemaining, remaining));
    }
    if let Some(retry_after) = decision.retry_after {
        metadata.push((GrpcHeader::RetryAfter, http_seconds_ceil(retry_after)));
    }
    if let Some(reset) = decision.reset {
        metadata.push((GrpcHeader::XRateLimitReset, whole_seconds(reset)));
    }
    proof {
        assert(metadata@ =~= spec_rejection_metadata(*decision));
    }
    GrpcRejection {
        http_status: grpc_code_to_http_status(RESOURCE_EXHAUSTED),
        grpc_status: RESOURCE_EXHAUSTED,
        message: String::from_str("Rate limit exceeded"),
        metadata,
    }
}

/// The `RESOURCE_EXHAUSTED` answer to a request without a key: `retry-after: 1`.
pub fn missing_key_error_response() -> (res: GrpcRejection)
    ensures
        is_rejection_with(res, seq![(GrpcHeader::RetryAfter, 1u64)]),
{
    let mut metadata: Vec<(GrpcHeader, u64)> = Vec::new();
    metadata.push((GrpcHeader::RetryAfter, 1));
    proof {
        assert(metadata@ =~= seq![(GrpcHeader::RetryAfter, 1u64)]);
    }
    GrpcRejection {
        http_status: grpc_code_to_http_status(RESOURCE_EXHAUSTED),
        grpc_status: RESOURCE_EXHAUSTED,
        message: String::from_str("Rate limit exceeded"),
        metadata,
    }
}

/// What the gRPC middleware does with a request.
#[derive(Debug)]
pub enum GrpcVerdict {
    /// Pass the request on and add this metadata to the response.
    Forward(Vec<(GrpcHeader, u64)>),
    /// Pass the request on untouched (no key, failing open).
    PassThrough,
    /// Answer with this status instead.
    Reject(GrpcRejection),
}

/// The verdict for a gRPC request, given its key (if one could be
/// extracted) and whether a missing key lets the request through.
pub fn decide_grpc_request<A: Algorithm>(limiter: &mut RateLimiter<A>, key: Option<&str>, fail_open: bool) -> (res:
    GrpcVerdict)
    requires
        old(limiter).wf(),
    ensures
        final(limiter).wf(),
        key is None ==> final(limiter)@ == old(limiter)@,
        key is None && fail_open ==> res is PassThrough,
        key is None && !fail_open ==> (res matches GrpcVerdict::Reject(r) && is_rejection_with(
            r,
            seq![(GrpcHeader::RetryAfter, 1u64)],
        )),
        key matches Some(k) ==> exists|now: u64, d: RateLimitDecision|
            (final(limiter)@, d) == A::step(old(limiter)@, k@, 1, now) && (if d.permitted {
                (res matches GrpcVerdict::Forward(h) && h@ == spec_rate_limit_trailer(d))
            } else {
                (res matches GrpcVerdict::Reject(r) && is_rejection_with(r, spec_rejection_metadata(d)))
            }),
{
    match key {
        None => {
            if fail_open {
                GrpcVerdict::PassThrough
            } else {
                GrpcVerdict::Reject(missing_key_error_response())
            }
        },
        Some(k) => {
            let ghost before = limiter@;
            let decision = limiter.check(k);
            let res = if decision.permitted {
                GrpcVerdict::Forward(add_rate_limit_trailer(&decision))
            } else {
                GrpcVerdict::Reject(rate_limit_error_response(&decision))
            };
            proof {
                let t = choose|t: u64| (limiter@, decision) == A::step(before, k@, 1, t);
                assert((limiter@, decision) == A::step(before, k@, 1, t));
            }
            res
        },
    }
}

} // verus!
