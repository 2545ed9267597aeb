//! [`Reset`] — the single point where a re-entrancy flag is acquired and released.
use core::cell::Cell;
use vstd::prelude::*;

use super::error::Reentered;
use super::flag::flag_get;

verus! {

/// Calls `Cell::set`, which neither unwinds nor opens an invariant. Private
/// to this module: [`Reset`] is the only writer of a re-entrancy flag.
#[verifier::external_body]
fn flag_set(c: &Cell<bool>, v: bool)
    opens_invariants none
    no_unwind
{
    c.set(v)
}

/// The decision on an acquisition, given the flag it read: refuse when
/// the flag is raised, otherwise take it.
pub fn gate_decision(active: bool) -> (r: Result<(), Reentered>)
    ensures
        r is Err <==> active,
{
    if active {
        Err(Reentered)
    } else {
        Ok(())
    }
}

/// Holds a re-entrancy flag `true` for its lifetime and clears it on scope exit,
/// including a panic unwind.
pub(crate) struct Reset<'a>(&'a Cell<bool>);

impl<'a> Reset<'a> {
    /// The flag this guard clears when it is dropped.
    pub(crate) closed spec fn flag(&self) -> &'a Cell<bool> {
        self.0
    }

    /// Raise the flag, returning the clearing guard, or [`Reentered`] if it is
    /// already held.
    pub(crate) fn acquire(active: &'a Cell<bool>) -> (r: Result<Self, Reentered>)
        ensures
            r is Ok ==> r->Ok_0.flag() == active,
    {
        let held = flag_get(active);
        match gate_decision(held) {
            Err(e) => Err(e),
            Ok(()) => {
                flag_set(active, true);
                Ok(Reset(active))
            },
        }
    }
}

impl<'a> Drop for Reset<'a> {
    fn drop(&mut self)
        opens_invariants none
        no_unwind
    {
        flag_set(self.0, false);
    }
}

} // verus!
