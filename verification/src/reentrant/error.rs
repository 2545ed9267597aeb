//! [`Reentered`] — the refusal a re-entrant acquisition gets.
use vstd::prelude::*;

verus! {

/// Returned by [`ReentrancyCell::enter`](super::ReentrancyCell::enter) when the
/// gate is already held — a re-entrant call on the same thread. Callers take a
/// fallback path rather than aliasing the guarded state.
#[derive(Debug, Clone, Copy, PartialEq, Eq, Hash, Default)]
pub struct Reentered;

impl Reentered {
    /// The human-readable description of the refusal.
    pub fn message(&self) -> (r: &'static str)
        ensures
            r@ == "re-entrant ReentrancyCell::enter (gate already held on this thread)"@,
    {
        "re-entrant ReentrancyCell::enter (gate already held on this thread)"
    }
}

} // verus!
