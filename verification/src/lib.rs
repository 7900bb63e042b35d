//! Per-key rate limiting with verified token accounting.
//!
//! The library keeps an independent bucket per key (client, IP address, user,
//! API key) and decides, request by request, whether a request is permitted.
//! Every decision procedure, its arithmetic and its bookkeeping is verified;
//! clocks, randomness seeds and the concurrent map are reached through small
//! trusted wrappers.

pub mod algorithm;
mod clock;
pub mod error;
pub mod limiter;
pub mod middleware;
pub mod store;
pub mod tonic_middleware;

pub use error::Error;
pub use limiter::{RateLimitDecision, RateLimiter, RateLimiterBuilder, RateLimiterConfig};
pub use algorithm::Algorithm;
