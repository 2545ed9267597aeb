//! The sealing trait for atomic primitives and ordering policies.
use vstd::prelude::*;

verus! {

/// Implemented only for the standard atomics and this crate's policies.
pub trait Sealed {}

} // verus!
