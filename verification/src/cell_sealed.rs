//! The sealing trait for retain policies.
use vstd::prelude::*;

verus! {

/// Implemented only by this crate's retain policies.
pub trait Sealed {}

} // verus!
