//! Exclusive slice borrows whose length the verifier keeps track of.
use vstd::prelude::*;

verus! {

/// Calls `<[X] as IndexMut<RangeFull>>::index_mut`, reborrowing the whole
/// slice. Trusted, as `std` documents, to give the same elements, so that
/// writes through the reborrow are the slice's contents afterwards; and, since
/// a slice's length is fixed, the reborrow's final contents have the length
/// it starts with.
#[verifier::external_body]
pub(crate) fn whole_slice_mut<X>(s: &mut [X]) -> (r: &mut [X])
    ensures
        r@ == old(s)@,
        final(s)@ == final(r)@,
        final(r)@.len() == r@.len(),
{
    &mut s[..]
}

} // verus!
