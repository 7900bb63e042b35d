//! Clock and seed sources.

use vstd::prelude::*;

verus! {

#[verifier::external_type_specification]
#[verifier::external_body]
pub struct ExTokioInstant(tokio::time::Instant);

/// `tokio::time::Instant::now`: the current instant of tokio's clock, which
/// tests can pause and advance.
#[verifier::external_body]
pub(crate) fn instant_now() -> tokio::time::Instant {
    tokio::time::Instant::now()
}

/// `tokio::time::Instant::elapsed`, as whole nanoseconds truncated to 64 bits.
#[verifier::external_body]
pub(crate) fn nanos_since(reference: &tokio::time::Instant) -> u64 {
    reference.elapsed().as_nanos() as u64
}

/// `std::time::SystemTime::now`, as nanoseconds since the Unix epoch
/// truncated to 64 bits; `None` when the clock reads before the epoch.
#[verifier::external_body]
pub(crate) fn wall_clock_nanos() -> Option<u64> {
    match std::time::SystemTime::now().duration_since(std::time::UNIX_EPOCH) {
        Ok(d) => Some(d.as_nanos() as u64),
        Err(_) => None,
    }
}

} // verus!
