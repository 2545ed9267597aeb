//! [`GuardedCell`] — a per-thread cell that hands out one `&mut T` at a time.
use core::cell::{BorrowMutError, Cell, RefCell, RefMut};
use vstd::prelude::*;

use super::error::Reentered;
use super::flag::{flag_get, flag_new};
use super::reset::{gate_decision, Reset};

verus! {

/// `core::cell::RefCell`, carried through opaquely.
#[verifier::external_type_specification]
#[verifier::external_body]
#[verifier::reject_recursive_types(T)]
pub struct ExRefCell<T: ?Sized>(RefCell<T>);

/// `core::cell::RefMut`, carried through opaquely.
#[verifier::external_type_specification]
#[verifier::external_body]
#[verifier::reject_recursive_types(T)]
pub struct ExRefMut<'b, T: ?Sized + 'b>(RefMut<'b, T>);

/// `core::cell::BorrowMutError`, carried through opaquely.
#[verifier::external_type_specification]
#[verifier::external_body]
pub struct ExBorrowMutError(BorrowMutError);

/// Calls `RefCell::new`. The contents change through shared references, which
/// no contract here can follow, so nothing is claimed of them.
#[verifier::external_body]
fn slot_new<T>(value: T) -> RefCell<T> {
    RefCell::new(value)
}

/// Calls `RefCell::into_inner`. Nothing is claimed of the value handed back:
/// the contents are not modelled.
#[verifier::external_body]
fn slot_into_inner<T>(slot: RefCell<T>) -> T {
    slot.into_inner()
}

/// Calls `RefCell::get_mut`, which needs no borrow flag: the `&mut` proves
/// exclusivity. Nothing is claimed of the value: the contents are not
/// modelled.
#[verifier::external_body]
fn slot_get_mut<T: ?Sized>(slot: &mut RefCell<T>) -> &mut T {
    slot.get_mut()
}

/// Calls `RefCell::try_borrow_mut`, which never panics: it reports a live
/// borrow as an error. Whether one is live is not modelled, so nothing is
/// claimed of which variant comes back.
#[verifier::external_body]
fn slot_try_borrow_mut<T: ?Sized>(slot: &RefCell<T>) -> Result<RefMut<'_, T>, BorrowMutError> {
    slot.try_borrow_mut()
}

/// Calls `RefMut`'s `DerefMut::deref_mut`, giving the borrowed value.
#[verifier::external_body]
fn slot_target<'a, 'b, T: ?Sized>(guard: &'a mut RefMut<'b, T>) -> &'a mut T {
    &mut **guard
}

/// A thread-confined cell that hands out one exclusive `&mut T` at a time.
///
/// The value-owning counterpart to [`ReentrancyCell`](super::ReentrancyCell):
/// it holds *ambient, persistent* exclusive state (a thread's allocator cache,
/// a per-thread arena cursor) that outlives any `brand_scope` closure.
/// [`enter`](Self::enter) checks the re-entrancy flag once and yields a
/// borrow-checked `&mut T`; re-entry is refused rather than aliased, and the
/// flag is cleared by a drop guard even if the closure unwinds. `!Sync` by
/// construction.
#[derive(Debug, Default)]
#[verifier::reject_recursive_types(T)]
pub struct GuardedCell<T> {
    active: Cell<bool>,
    value: RefCell<T>,
}

impl<T> GuardedCell<T> {
    /// Wrap `value` in an idle guarded cell.
    pub fn new(value: T) -> (r: Self) {
        GuardedCell { active: flag_new(false), value: slot_new(value) }
    }

    /// Consume the cell, returning the contained value.
    pub fn into_inner(self) -> (r: T) {
        slot_into_inner(self.value)
    }

    /// Whether a borrow is currently in progress on this thread.
    pub fn is_active(&self) -> (r: bool) {
        flag_get(&self.active)
    }

    /// Run `f` with exclusive `&mut T`.
    ///
    /// The flag is cleared when `f` returns, including across a panic.
    ///
    /// # Errors
    ///
    /// Returns [`Reentered`] without running `f` if a borrow is already in
    /// progress on this thread.
    pub fn enter<R, F>(&self, f: F) -> (r: Result<R, Reentered>)
        where
            F: FnOnce(&mut T) -> R,
        requires
            forall|v: &mut T| f.requires((v,)),
        ensures
            r is Ok ==> exists|v: &mut T| f.ensures((v,), r->Ok_0),
    {
        match Reset::acquire(&self.active) {
            Err(e) => Err(e),
            Ok(_reset) => self.run_borrowed(f),
        }
    }

    /// Run `f` with `&mut T` without raising the flag, for a hot path where
    /// `f` is known not to re-enter. A re-entrant call from `f` is still
    /// refused, by the cell's own borrow check, rather than aliased.
    ///
    /// # Errors
    ///
    /// Returns [`Reentered`] without running `f` if a guarded borrow is
    /// already in progress on this thread.
    pub fn enter_unguarded<R, F>(&self, f: F) -> (r: Result<R, Reentered>)
        where
            F: FnOnce(&mut T) -> R,
        requires
            forall|v: &mut T| f.requires((v,)),
        ensures
            r is Ok ==> exists|v: &mut T| f.ensures((v,), r->Ok_0),
    {
        match gate_decision(flag_get(&self.active)) {
            Err(e) => Err(e),
            Ok(()) => self.run_borrowed(f),
        }
    }

    /// Borrow the value and run `f` on it; a live borrow is refused.
    fn run_borrowed<R, F>(&self, f: F) -> (r: Result<R, Reentered>)
        where
            F: FnOnce(&mut T) -> R,
        requires
            forall|v: &mut T| f.requires((v,)),
        ensures
            r is Ok ==> exists|v: &mut T| f.ensures((v,), r->Ok_0),
    {
        match slot_try_borrow_mut(&self.value) {
            Err(_) => Err(Reentered),
            Ok(mut guard) => {
                let value = slot_target(&mut guard);
                let out = f(value);
                let r: Result<R, Reentered> = Ok(out);
                assert(r->Ok_0 == out);
                assert(exists|v: &mut T| f.ensures((v,), r->Ok_0));
                r
            },
        }
    }

    /// Acquire `&mut T` from unique ownership — no flag, no check needed.
    pub fn get_mut(&mut self) -> (r: &mut T) {
        slot_get_mut(&mut self.value)
    }
}

} // verus!
