//! Brand tokens and the permit traits that gate access to branded state.
//!
//! A [`brand_scope`] mints one [`ExclusiveToken`] over a fresh, invariant
//! lifetime `'brand`. Shared borrows of it (and [`SharedReadToken`] copies
//! derived from it) are [`ReadPermit`]s; the exclusive borrow is the only
//! [`WritePermit`]. The borrow checker forbids holding the exclusive borrow and
//! any shared one at once, which is what excludes writes from reads across the
//! whole brand. Every token is zero-sized.
use core::marker::PhantomData;
use vstd::prelude::*;

use crate::token_sealed::Sealed;

verus! {

/// A zero-sized marker that makes a type invariant in `'brand`.
pub type InvariantLifetime<'brand> = PhantomData<&'brand mut &'brand ()>;

/// The unique owning token of a brand: read and write capability.
pub struct ExclusiveToken<'brand> {
    _brand: InvariantLifetime<'brand>,
}

/// A copyable read capability borrowed from a brand's [`ExclusiveToken`].
#[derive(Clone, Copy)]
pub struct SharedReadToken<'t, 'brand> {
    _token: PhantomData<&'t ExclusiveToken<'brand>>,
}

/// Evidence that no exclusive access to `'brand` is live.
pub trait ReadPermit<'brand>: Sealed {}

/// Evidence of exclusive access to `'brand`; it also grants read.
pub trait WritePermit<'brand>: ReadPermit<'brand> {}

impl<'t, 'brand> Sealed for &'t ExclusiveToken<'brand> {}

impl<'t, 'brand> Sealed for &'t mut ExclusiveToken<'brand> {}

impl<'t, 'brand> Sealed for SharedReadToken<'t, 'brand> {}

impl<'t, 'brand> ReadPermit<'brand> for &'t ExclusiveToken<'brand> {}

impl<'t, 'brand> ReadPermit<'brand> for &'t mut ExclusiveToken<'brand> {}

impl<'t, 'brand> WritePermit<'brand> for &'t mut ExclusiveToken<'brand> {}

impl<'t, 'brand> ReadPermit<'brand> for SharedReadToken<'t, 'brand> {}

impl<'brand> ExclusiveToken<'brand> {
    /// Mint the token of a brand. Crate-private: every caller hands the token
    /// to a closure that is generic over the brand, so it cannot escape.
    pub(crate) fn mint() -> (r: Self) {
        ExclusiveToken { _brand: PhantomData }
    }

    /// Fan the read capability out as a copyable token borrowed from `self`.
    pub fn share<'t>(&'t self) -> (r: SharedReadToken<'t, 'brand>) {
        SharedReadToken { _token: PhantomData }
    }
}

/// Mint a fresh brand and run `f` with its unique [`ExclusiveToken`].
///
/// The brand is higher-ranked in `f`, so neither the token nor anything branded
/// by it can escape the call; the result of `f` is returned unchanged.
pub fn brand_scope<R, F>(f: F) -> (r: R)
    where
        F: for<'brand> FnOnce(ExclusiveToken<'brand>) -> R,
    requires
        forall|t: ExclusiveToken| f.requires((t,)),
    ensures
        exists|t: ExclusiveToken| f.ensures((t,), r),
{
    f(ExclusiveToken::mint())
}

} // verus!
