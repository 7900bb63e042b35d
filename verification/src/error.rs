//! Error types for the rate limiting library.

use vstd::prelude::*;

verus! {

/// Error types that can occur during rate limiting operations.
#[derive(Debug)]
pub enum Error {
    /// Configuration error, with a message saying what is wrong.
    Config(String),
}

} // verus!
