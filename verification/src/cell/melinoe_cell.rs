//! [`MelinoeCell`] — a value branded with `'brand`, read through a permit.
use core::marker::PhantomData;
use vstd::prelude::*;

use super::reference::MelinoeRef;
use crate::token::{InvariantLifetime, ReadPermit};

verus! {

/// A value tagged with the brand whose permits govern it.
///
/// Shared reads go through a [`ReadPermit`] for `'brand`; exclusive access
/// comes from unique ownership of the cell, or of a
/// [`WriterShard`](crate::region::WriterShard) over a region of cells.
pub struct MelinoeCell<'brand, T> {
    value: T,
    _brand: InvariantLifetime<'brand>,
}

impl<'brand, T> View for MelinoeCell<'brand, T> {
    type V = T;

    closed spec fn view(&self) -> T {
        self.value
    }
}

impl<'brand, T> MelinoeCell<'brand, T> {
    /// Wrap `value` in a cell branded by the ambient `'brand`.
    pub fn new(value: T) -> (r: Self)
        ensures
            r@ == value,
    {
        MelinoeCell { value, _brand: PhantomData }
    }

    /// Consume the cell, returning the contained value.
    pub fn into_inner(self) -> (r: T)
        ensures
            r == self@,
    {
        self.value
    }

    /// Shared access, proven by a [`ReadPermit`] for `'brand`.
    pub fn borrow<'a, P>(&'a self, _permit: P) -> (r: MelinoeRef<'a, 'brand, T>)
        where
            P: ReadPermit<'brand> + 'a,
        ensures
            r@ == self@,
    {
        MelinoeRef::new(&self.value)
    }

    /// Acquire `&mut T` from unique ownership of the cell — no token required.
    pub fn get_mut(&mut self) -> (r: &mut T)
        ensures
            *r == old(self)@,
            final(self)@ == *final(r),
    {
        &mut self.value
    }

    /// The contained value, for a holder that already excludes writers.
    pub(crate) fn value_ref(&self) -> (r: &T)
        ensures
            *r == self@,
    {
        &self.value
    }
}

} // verus!
