//! [`MelinoeCell2`] — a value gated by *two* brands at once.
use core::marker::PhantomData;
use vstd::prelude::*;

use crate::token::{InvariantLifetime, ReadPermit};

verus! {

/// A cell whose shared access requires a capability for each of two brands:
/// data co-owned by two subsystems, touched only while both exclusion domains
/// are held.
pub struct MelinoeCell2<'a, 'b, T> {
    _a: InvariantLifetime<'a>,
    _b: InvariantLifetime<'b>,
    value: T,
}

impl<'a, 'b, T> View for MelinoeCell2<'a, 'b, T> {
    type V = T;

    closed spec fn view(&self) -> T {
        self.value
    }
}

impl<'a, 'b, T> MelinoeCell2<'a, 'b, T> {
    /// Wrap `value` in a cell branded by the ambient `'a` and `'b`.
    pub fn new(value: T) -> (r: Self)
        ensures
            r@ == value,
    {
        MelinoeCell2 { _a: PhantomData, _b: PhantomData, value }
    }

    /// Consume the cell, returning the contained value.
    pub fn into_inner(self) -> (r: T)
        ensures
            r == self@,
    {
        self.value
    }

    /// Shared access, proven by a [`ReadPermit`] for *each* brand.
    pub fn borrow<'s, PA, PB>(&'s self, _a: PA, _b: PB) -> (r: &'s T)
        where
            PA: ReadPermit<'a> + 's,
            PB: ReadPermit<'b> + 's,
        ensures
            *r == self@,
    {
        &self.value
    }

    /// Acquire `&mut T` from unique ownership of the cell — no tokens required.
    pub fn get_mut(&mut self) -> (r: &mut T)
        ensures
            *r == old(self)@,
            final(self)@ == *final(r),
    {
        &mut self.value
    }
}

impl<'a, 'b, T: Default> Default for MelinoeCell2<'a, 'b, T> {
    fn default() -> (r: Self)
        ensures
            call_ensures(T::default, (), r@),
    {
        MelinoeCell2::new(T::default())
    }
}

} // verus!
