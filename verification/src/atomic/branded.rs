//! Branded atomic wrapper implementing conditional synchronization.
use core::marker::PhantomData;
use core::sync::atomic::Ordering;
use vstd::prelude::*;

use super::order::{failure_ordering_ok, load_ordering_ok, store_ordering_ok, AtomicOrder};
use super::traits::{exchange_outcome, Atomic, AtomicInt};
use crate::token::{InvariantLifetime, ReadPermit, WritePermit};

verus! {

/// A branded atomic whose access is selected by the capability presented:
/// the exclusive phase (a [`WritePermit`]) and the shared phase (a
/// [`ReadPermit`]) can never overlap, because both borrow the brand's unique
/// token.
///
/// The value held by the atomic is not part of any contract here: it can
/// change through shared references, which the verifier's model of `&` does
/// not let a contract follow.
pub struct BrandedAtomic<'brand, A: Atomic> {
    inner: A,
    _brand: InvariantLifetime<'brand>,
}

impl<'brand, A: Atomic> BrandedAtomic<'brand, A> {
    /// The underlying atomic.
    pub closed spec fn atomic(&self) -> A {
        self.inner
    }

    /// Create a branded atomic holding `value`, branded with the ambient
    /// `'brand`.
    pub fn new(value: A::Value) -> (r: Self) {
        Self { inner: A::new_atomic(value), _brand: PhantomData }
    }

    /// View the underlying atomic in the shared phase, gated by a read permit.
    pub fn as_atomic<'a, P>(&'a self, _permit: P) -> (r: &'a A)
        where
            P: ReadPermit<'brand> + 'a,
        ensures
            *r == self.atomic(),
    {
        &self.inner
    }

    /// View the underlying atomic through unique ownership of the wrapper.
    pub fn as_atomic_mut(&mut self) -> (r: &mut A)
        ensures
            *r == old(self).atomic(),
            final(self).atomic() == *final(r),
    {
        &mut self.inner
    }

    /// Consume the wrapper, returning the underlying atomic without extracting
    /// the value.
    pub fn into_atomic(self) -> (r: A)
        ensures
            r == self.atomic(),
    {
        self.inner
    }

    // ───────────────────────── exclusive phase ─────────────────────────
    /// Run `f` with plain `&mut` access to the value under a proof of
    /// exclusivity.
    ///
    /// The write permit excludes every other access to this brand for the
    /// call, so the value is read once, handed to `f`, and written back, each
    /// with a relaxed operation.
    pub fn with_exclusive<P, R, F>(&self, _permit: P, f: F) -> (r: R)
        where
            P: WritePermit<'brand>,
            F: FnOnce(&mut A::Value) -> R,
        requires
            forall|v: &mut A::Value| f.requires((v,)),
        ensures
            exists|v: &mut A::Value| f.ensures((v,), r),
    {
        let mut value = self.inner.atomic_load(Ordering::Relaxed);
        let out = f(&mut value);
        assert(exists|v: &mut A::Value| f.ensures((v,), out));
        self.inner.atomic_store(value, Ordering::Relaxed);
        out
    }

    /// Load under a proof of exclusivity.
    ///
    /// The write permit excludes every other access to this brand for the
    /// call, so a relaxed load is the whole cost.
    pub fn load_exclusive<P>(&self, _permit: P) -> A::Value
        where
            P: WritePermit<'brand>,
    {
        self.inner.atomic_load(Ordering::Relaxed)
    }

    /// Store under a proof of exclusivity.
    ///
    /// The write permit excludes every other access to this brand for the
    /// call, so a relaxed store is the whole cost.
    pub fn store_exclusive<P>(&self, value: A::Value, _permit: P)
        where
            P: WritePermit<'brand>,
    {
        self.inner.atomic_store(value, Ordering::Relaxed)
    }

    /// Plain `&mut` access from unique ownership of the cell — no permit needed.
    pub fn get_mut(&mut self) -> &mut A::Value {
        self.inner.atomic_get_mut()
    }

    /// Consume the cell, returning the contained value.
    pub fn into_inner(self) -> A::Value {
        self.inner.atomic_into_inner()
    }

    // ────────────────────────── shared phase ──────────────────────────
    /// Atomic load. Requires a [`ReadPermit`] for `'brand` (the shared phase).
    pub fn load<P>(&self, _permit: P, order: Ordering) -> A::Value
        where
            P: ReadPermit<'brand>,
        requires
            load_ordering_ok(order),
    {
        self.inner.atomic_load(order)
    }

    /// Atomic load using a compile-time ZST ordering policy.
    pub fn load_with<P, O>(&self, _permit: P, _order: O) -> A::Value
        where
            P: ReadPermit<'brand>,
            O: AtomicOrder,
    {
        proof {
            O::lemma_roles_accepted();
        }
        self.inner.atomic_load(O::load_ordering())
    }

    /// Atomic store. Requires a [`ReadPermit`] for `'brand`.
    pub fn store<P>(&self, value: A::Value, _permit: P, order: Ordering)
        where
            P: ReadPermit<'brand>,
        requires
            store_ordering_ok(order),
    {
        self.inner.atomic_store(value, order)
    }

    /// Atomic store using a compile-time ZST ordering policy.
    pub fn store_with<P, O>(&self, value: A::Value, _permit: P, _order: O)
        where
            P: ReadPermit<'brand>,
            O: AtomicOrder,
    {
        proof {
            O::lemma_roles_accepted();
        }
        self.inner.atomic_store(value, O::store_ordering())
    }

    /// Atomic swap. Requires a [`ReadPermit`] for `'brand`.
    pub fn swap<P>(&self, value: A::Value, _permit: P, order: Ordering) -> A::Value
        where
            P: ReadPermit<'brand>,
    {
        self.inner.atomic_swap(value, order)
    }

    /// Atomic swap using a compile-time ZST ordering policy.
    pub fn swap_with<P, O>(&self, value: A::Value, _permit: P, _order: O) -> A::Value
        where
            P: ReadPermit<'brand>,
            O: AtomicOrder,
    {
        self.inner.atomic_swap(value, O::rmw_ordering())
    }

    /// Atomic compare-and-exchange. Requires a [`ReadPermit`] for `'brand`.
    ///
    /// # Errors
    ///
    /// Returns `Err(previous)` if the stored value did not equal `current`.
    pub fn compare_exchange<P>(
        &self,
        current: A::Value,
        new: A::Value,
        success: Ordering,
        failure: Ordering,
        _permit: P,
    ) -> (r: Result<A::Value, A::Value>)
        where
            P: ReadPermit<'brand>,
        requires
            failure_ordering_ok(failure),
        ensures
            exchange_outcome(r, current),
    {
        self.inner.atomic_compare_exchange(current, new, success, failure)
    }

    /// Atomic compare-and-exchange using a compile-time ZST ordering policy.
    ///
    /// # Errors
    ///
    /// Returns `Err(previous)` if the stored value did not equal `current`.
    pub fn compare_exchange_with<P, O>(
        &self,
        current: A::Value,
        new: A::Value,
        _permit: P,
        _order: O,
    ) -> (r: Result<A::Value, A::Value>)
        where
            P: ReadPermit<'brand>,
            O: AtomicOrder,
        ensures
            exchange_outcome(r, current),
    {
        proof {
            O::lemma_roles_accepted();
        }
        self.inner.atomic_compare_exchange(current, new, O::rmw_ordering(), O::failure_ordering())
    }
}

impl<'brand, A: AtomicInt> BrandedAtomic<'brand, A> {
    /// Atomic fetch-add. Requires a [`ReadPermit`] for `'brand`.
    pub fn fetch_add<P>(&self, value: A::Value, _permit: P, order: Ordering) -> A::Value
        where
            P: ReadPermit<'brand>,
    {
        self.inner.atomic_fetch_add(value, order)
    }

    /// Atomic fetch-add using a compile-time ZST ordering policy.
    pub fn fetch_add_with<P, O>(&self, value: A::Value, _permit: P, _order: O) -> A::Value
        where
            P: ReadPermit<'brand>,
            O: AtomicOrder,
    {
        self.inner.atomic_fetch_add(value, O::rmw_ordering())
    }

    /// Atomic fetch-sub. Requires a [`ReadPermit`] for `'brand`.
    pub fn fetch_sub<P>(&self, value: A::Value, _permit: P, order: Ordering) -> A::Value
        where
            P: ReadPermit<'brand>,
    {
        self.inner.atomic_fetch_sub(value, order)
    }

    /// Atomic fetch-sub using a compile-time ZST ordering policy.
    pub fn fetch_sub_with<P, O>(&self, value: A::Value, _permit: P, _order: O) -> A::Value
        where
            P: ReadPermit<'brand>,
            O: AtomicOrder,
    {
        self.inner.atomic_fetch_sub(value, O::rmw_ordering())
    }

    /// Atomic fetch-and. Requires a [`ReadPermit`] for `'brand`.
    pub fn fetch_and<P>(&self, value: A::Value, _permit: P, order: Ordering) -> A::Value
        where
            P: ReadPermit<'brand>,
    {
        self.inner.atomic_fetch_and(value, order)
    }

    /// Atomic fetch-and using a compile-time ZST ordering policy.
    pub fn fetch_and_with<P, O>(&self, value: A::Value, _permit: P, _order: O) -> A::Value
        where
            P: ReadPermit<'brand>,
            O: AtomicOrder,
    {
        self.inner.atomic_fetch_and(value, O::rmw_ordering())
    }

    /// Atomic fetch-or. Requires a [`ReadPermit`] for `'brand`.
    pub fn fetch_or<P>(&self, value: A::Value, _permit: P, order: Ordering) -> A::Value
        where
            P: ReadPermit<'brand>,
    {
        self.inner.atomic_fetch_or(value, order)
    }

    /// Atomic fetch-or using a compile-time ZST ordering policy.
    pub fn fetch_or_with<P, O>(&self, value: A::Value, _permit: P, _order: O) -> A::Value
        where
            P: ReadPermit<'brand>,
            O: AtomicOrder,
    {
        self.inner.atomic_fetch_or(value, O::rmw_ordering())
    }
}

} // verus!
