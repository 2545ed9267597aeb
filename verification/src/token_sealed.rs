//! The sealing trait that keeps permits from being forged outside this crate.
use vstd::prelude::*;

verus! {

/// Implemented only by this crate's token borrows.
pub trait Sealed {}

} // verus!
