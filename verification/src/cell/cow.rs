//! Retain policies for the boundary where a branded slice may escape.
use std::borrow::Cow;
use vstd::prelude::*;

use crate::cell_sealed::Sealed;

verus! {

/// Calls `<[T]>::to_vec`. Trusted to return a new vector of the same length
/// whose every element is a clone of the element at the same index, as the
/// `std` documentation of `to_vec` states.
#[verifier::external_body]
fn owned_copy<T: Clone>(slice: &[T]) -> (r: Vec<T>)
    ensures
        r@.len() == slice@.len(),
        forall|i: int| 0 <= i < r@.len() ==> cloned(#[trigger] slice@[i], r@[i]),
{
    slice.to_vec()
}

/// The `Cow` a policy hands out for `values`: borrowed as is, or an owned copy
/// whose every element is a clone of the element at the same index.
pub open spec fn cow_of<'x, T: Clone>(r: Cow<'x, [T]>, values: Seq<T>, retain: bool) -> bool {
    match r {
        Cow::Owned(v) => {
            &&& retain
            &&& v@.len() == values.len()
            &&& forall|i: int| 0 <= i < values.len() ==> cloned(#[trigger] values[i], v@[i])
        },
        Cow::Borrowed(b) => !retain && b@ == values,
    }
}

/// Compile-time retain policy: [`Borrowed`] hands out the slice itself,
/// [`Retained`] clones it exactly once into an owned buffer.
pub trait CowPolicy: Sealed + Copy {
    /// Whether this policy clones the slice into an owned buffer.
    spec fn retains() -> bool;

    /// Build the boundary `Cow` from the slice view.
    fn cow<T: Clone>(slice: &[T]) -> (r: Cow<'_, [T]>)
        ensures
            cow_of(r, slice@, Self::retains()),
    ;
}

/// Borrow the slice; no allocation and no element clone.
#[derive(Clone, Copy, Debug, Default, PartialEq, Eq)]
pub struct Borrowed;

/// Clone the slice into an owned buffer so it may outlive the brand.
#[derive(Clone, Copy, Debug, Default, PartialEq, Eq)]
pub struct Retained;

impl Sealed for Borrowed {}

impl Sealed for Retained {}

impl CowPolicy for Borrowed {
    open spec fn retains() -> bool {
        false
    }

    fn cow<T: Clone>(slice: &[T]) -> (r: Cow<'_, [T]>) {
        Cow::Borrowed(slice)
    }
}

impl CowPolicy for Retained {
    open spec fn retains() -> bool {
        true
    }

    fn cow<T: Clone>(slice: &[T]) -> (r: Cow<'_, [T]>) {
        Cow::Owned(owned_copy(slice))
    }
}

/// Runtime retain decision, for when the escape decision is data-dependent.
#[derive(Clone, Copy, Debug, PartialEq, Eq)]
pub enum RetainDecision {
    /// Return `Cow::Borrowed`.
    Borrow,
    /// Return `Cow::Owned`.
    Retain,
}

/// Return a `Cow` of `slice` according to a runtime retain decision.
pub fn cow_if<T: Clone>(slice: &[T], decision: RetainDecision) -> (r: Cow<'_, [T]>)
    ensures
        cow_of(r, slice@, decision == RetainDecision::Retain),
{
    match decision {
        RetainDecision::Borrow => Borrowed::cow(slice),
        RetainDecision::Retain => Retained::cow(slice),
    }
}

/// Return a `Cow` of `slice` according to the compile-time policy `C`.
pub fn cow_with<T: Clone, C: CowPolicy>(slice: &[T], _policy: C) -> (r: Cow<'_, [T]>)
    ensures
        cow_of(r, slice@, C::retains()),
{
    C::cow(slice)
}

} // verus!
