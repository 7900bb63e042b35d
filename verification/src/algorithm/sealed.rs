//! The seal that keeps [`Algorithm`](super::Algorithm) implemented only in this crate.

use vstd::prelude::*;

verus! {

/// Implemented by the in-tree algorithms only.
pub trait Sealed {}

} // verus!
