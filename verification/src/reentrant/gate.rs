//! [`ReentrancyCell`] — a per-thread guard yielding one fresh-brand token.
use core::cell::Cell;
use vstd::prelude::*;

use super::error::Reentered;
use super::flag::{flag_get, flag_new};
use super::reset::Reset;
use crate::token::{brand_scope, ExclusiveToken};

verus! {

/// A thread-confined guard yielding at most one exclusive branded token at a
/// time. `!Sync` by construction (it holds a `Cell`).
pub struct ReentrancyCell {
    active: Cell<bool>,
}

impl ReentrancyCell {
    /// Create an idle gate.
    pub fn new() -> (r: Self) {
        ReentrancyCell { active: flag_new(false) }
    }

    /// Whether the flag is currently raised (an `enter` is in progress).
    pub fn is_active(&self) -> (r: bool) {
        flag_get(&self.active)
    }

    /// Raise the flag and run `f` with a fresh-brand [`ExclusiveToken`].
    ///
    /// The flag is cleared when `f` returns, including across a panic
    /// unwinding through `f`.
    ///
    /// # Errors
    ///
    /// Returns [`Reentered`] without running `f` if the flag is already raised on
    /// this thread (a re-entrant call).
    pub fn enter<R, F>(&self, f: F) -> (r: Result<R, Reentered>)
        where
            F: for<'brand> FnOnce(ExclusiveToken<'brand>) -> R,
        requires
            forall|t: ExclusiveToken| f.requires((t,)),
        ensures
            r is Ok ==> exists|t: ExclusiveToken| f.ensures((t,), r->Ok_0),
    {
        match Reset::acquire(&self.active) {
            Err(e) => Err(e),
            Ok(_reset) => {
                let out = brand_scope(f);
                let r: Result<R, Reentered> = Ok(out);
                assert(r->Ok_0 == out);
                assert(exists|t: ExclusiveToken| f.ensures((t,), r->Ok_0));
                r
            },
        }
    }
}

} // verus!
