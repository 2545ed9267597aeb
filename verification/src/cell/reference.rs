//! Branded borrow guards returned by cell access methods.
use core::marker::PhantomData;
use core::ops::{Deref, DerefMut};
use vstd::prelude::*;

use crate::token::InvariantLifetime;

verus! {

/// A shared, branded view of a cell's contents (`Deref` to `T`).
///
/// Construction is crate-private: the only source is a permit-gated borrow.
pub struct MelinoeRef<'a, 'brand, T> {
    value: &'a T,
    _brand: InvariantLifetime<'brand>,
}

impl<'a, 'brand, T> View for MelinoeRef<'a, 'brand, T> {
    type V = T;

    closed spec fn view(&self) -> T {
        *self.value
    }
}

impl<'a, 'brand, T> MelinoeRef<'a, 'brand, T> {
    pub(crate) fn new(value: &'a T) -> (r: Self)
        ensures
            r@ == *value,
    {
        MelinoeRef { value, _brand: PhantomData }
    }

    /// Consume the guard, returning the underlying shared reference.
    pub fn into_ref(self) -> (r: &'a T)
        ensures
            *r == self@,
    {
        self.value
    }
}

impl<'a, 'brand, T> Deref for MelinoeRef<'a, 'brand, T> {
    type Target = T;

    fn deref(&self) -> (r: &T)
        ensures
            *r == self@,
    {
        self.value
    }
}

/// An exclusive, branded view of a cell's contents.
///
/// Construction is crate-private: the only source is an exclusive borrow.
pub struct MelinoeMut<'a, 'brand, T> {
    value: &'a mut T,
    _brand: InvariantLifetime<'brand>,
}

impl<'a, 'brand, T> View for MelinoeMut<'a, 'brand, T> {
    type V = T;

    closed spec fn view(&self) -> T {
        *self.value
    }
}

impl<'a, 'brand, T> MelinoeMut<'a, 'brand, T> {
    /// The exclusive reference the guard holds; what it points to when the
    /// borrow ends is `*final(self.target())`.
    pub closed spec fn target(self) -> &'a mut T {
        self.value
    }

    pub(crate) fn new(value: &'a mut T) -> (r: Self)
        ensures
            r@ == *old(value),
            *r.target() == *old(value),
            *final(r.target()) == *final(value),
    {
        MelinoeMut { value, _brand: PhantomData }
    }

    /// Consume the guard, returning the underlying exclusive reference.
    pub fn into_mut(self) -> (r: &'a mut T)
        ensures
            *r == self@,
            *final(r) == *final(self.target()),
    {
        self.value
    }
}

impl<'a, 'brand, T> Deref for MelinoeMut<'a, 'brand, T> {
    type Target = T;

    fn deref(&self) -> (r: &T)
        ensures
            *r == self@,
    {
        self.value
    }
}

impl<'a, 'brand, T> DerefMut for MelinoeMut<'a, 'brand, T> {
    fn deref_mut(&mut self) -> (r: &mut T)
        ensures
            *r == old(self)@,
            final(self)@ == *final(r),
    {
        &mut *self.value
    }
}

} // verus!
