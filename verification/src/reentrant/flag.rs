//! The per-thread guard flag: a `std` `Cell<bool>`.
use core::cell::Cell;
use vstd::prelude::*;

verus! {

/// `core::cell::Cell`, carried through opaquely.
#[verifier::external_type_specification]
#[verifier::external_body]
#[verifier::reject_recursive_types(T)]
pub struct ExCell<T: ?Sized>(Cell<T>);

/// Calls `Cell::new`. Nothing is claimed of the flag: it changes through
/// shared references, which no contract here can follow.
#[verifier::external_body]
pub(crate) fn flag_new(v: bool) -> Cell<bool> {
    Cell::new(v)
}

/// Calls `Cell::get`. The flag's value depends on what ran before on this
/// thread, so nothing is claimed of the result.
#[verifier::external_body]
pub(crate) fn flag_get(c: &Cell<bool>) -> bool {
    c.get()
}

} // verus!
