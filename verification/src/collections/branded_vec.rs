//! [`BrandedVec`] — `Vec` storage whose element access is gated by a brand.
use core::marker::PhantomData;
use core::ops::Range;
use std::borrow::Cow;
use std::collections::VecDeque;
use vstd::prelude::*;

use super::deque_plan::{
    clamped_chunk, flatten, index_in, lemma_plan_fits, partitioned_read, partitioned_write, plan_of,
    shard_values, DequeShard, DequeShardPlan,
};
use crate::cell::{cow_if, cow_of, CowPolicy, MelinoeMut, MelinoeRef, RetainDecision};
use crate::slices::whole_slice_mut;
use crate::token::{ExclusiveToken, InvariantLifetime, ReadPermit, WritePermit};

verus! {

/// Calls `Vec::capacity`. Trusted to be at least the length, as `std`
/// documents (the capacity is how many elements fit without reallocating);
/// the exact value depends on the allocator and is not claimed.
#[verifier::external_body]
fn vec_capacity<X>(v: &Vec<X>) -> (r: usize)
    ensures
        r >= v@.len(),
{
    v.capacity()
}

/// Calls `Vec::shrink_to_fit`. Trusted to leave the elements unchanged, as
/// `std` documents (only the capacity shrinks).
#[verifier::external_body]
fn vec_shrink_to_fit<X>(v: &mut Vec<X>)
    ensures
        final(v)@ == old(v)@,
{
    v.shrink_to_fit()
}

/// `s` with the elements at `a` and `b` exchanged.
pub open spec fn exchanged<X>(s: Seq<X>, a: usize, b: usize) -> Seq<X> {
    s.update(a as int, s[b as int]).update(b as int, s[a as int])
}

/// The values of `values` whose matching entry of `keeps` is `true`, in order.
pub open spec fn kept_values<T>(values: Seq<T>, keeps: Seq<bool>) -> Seq<T>
    decreases values.len(),
{
    if values.len() == 0 {
        Seq::empty()
    } else {
        let before = kept_values(values.drop_last(), keeps.drop_last());
        if keeps.last() {
            before.push(values.last())
        } else {
            before
        }
    }
}

/// Deciding on one more value extends the kept values by it exactly when it
/// is kept.
pub proof fn lemma_kept_values_push<T>(values: Seq<T>, keeps: Seq<bool>, v: T, keep: bool)
    ensures
        kept_values(values.push(v), keeps.push(keep)) == if keep {
            kept_values(values, keeps).push(v)
        } else {
            kept_values(values, keeps)
        },
{
    assert(values.push(v).drop_last() =~= values);
    assert(keeps.push(keep).drop_last() =~= keeps);
}

/// Run the filter `f` on `value` through a `&mut`, returning what it left in
/// the value and its answer.
pub(crate) fn filter_step<T, F>(f: &mut F, value: T) -> (r: (T, bool))
    where
        F: FnMut(&mut T) -> bool,
    requires
        forall|x: &mut T| (*old(f)).requires((x,)),
    ensures
        forall|x: &mut T| (*final(f)).requires((x,)),
        exists|x: &mut T|
            #![trigger (*old(f)).ensures((x,), r.1)]
            *x == value && *final(x) == r.0 && (*old(f)).ensures((x,), r.1),
{
    let mut v = value;
    let ghost before = *f;
    let keep = f(&mut v);
    assert(exists|x: &mut T| *x == value && *final(x) == v && before.ensures((x,), keep));
    assert(before == *old(f));
    let ghost newv = v;
    let r = (v, keep);
    proof {
        let x0 = choose|x: &mut T| *x == value && *final(x) == newv && before.ensures((x,), keep);
        assert(*x0 == value);
        assert(*final(x0) == r.0);
        assert((*old(f)).ensures((x0,), r.1));
    }
    assert(exists|x: &mut T|
        #![trigger (*old(f)).ensures((x,), r.1)]
        *x == value && *final(x) == r.0 && (*old(f)).ensures((x,), r.1));
    r
}

/// Swapping the same two positions twice restores the sequence.
pub proof fn law_swap_twice_restores<X>(s: Seq<X>, a: usize, b: usize)
    requires
        a < s.len(),
        b < s.len(),
    ensures
        exchanged(exchanged(s, a, b), a, b) == s,
{
    assert(exchanged(exchanged(s, a, b), a, b) =~= s);
}

/// Splitting the values at `at` and appending the split-off part gives back
/// the sequence it started from.
pub proof fn law_split_off_then_append_restores<X>(s: Seq<X>, at: int)
    requires
        0 <= at <= s.len(),
    ensures
        s.subrange(0, at) + s.subrange(at, s.len() as int) == s,
{
    assert(s.subrange(0, at) + s.subrange(at, s.len() as int) =~= s);
}

/// Draining `start..end` loses nothing: the drained values put back between
/// the kept prefix and the kept suffix restore the sequence.
pub proof fn law_drain_loses_nothing<X>(s: Seq<X>, start: int, end: int)
    requires
        0 <= start <= end <= s.len(),
    ensures
        ({
            let kept = s.subrange(0, start) + s.subrange(end, s.len() as int);
            kept.subrange(0, start) + s.subrange(start, end) + kept.subrange(start, kept.len() as int) == s
        }),
{
    let kept = s.subrange(0, start) + s.subrange(end, s.len() as int);
    assert(kept.subrange(0, start) =~= s.subrange(0, start));
    assert(kept.subrange(start, kept.len() as int) =~= s.subrange(end, s.len() as int));
    assert(s.subrange(0, start) + s.subrange(start, end) + s.subrange(end, s.len() as int) =~= s);
}

/// Calls `<[X]>::swap` on the vector's elements. Trusted to exchange the
/// elements at `a` and `b` and leave the others, as `std` documents; it
/// panics on an index out of bounds, which `requires` excludes.
#[verifier::external_body]
fn vec_exchange<X>(v: &mut Vec<X>, a: usize, b: usize)
    requires
        a < old(v)@.len(),
        b < old(v)@.len(),
    ensures
        final(v)@ == exchanged(old(v)@, a, b),
{
    v.swap(a, b)
}

/// A branded vector: a `Vec` whose element reads require a permit for
/// `'brand`.
///
/// The vector owns allocation and length management; the brand owns the
/// access proof. Shared views need a [`ReadPermit`]; exclusive views need a
/// [`WritePermit`] together with unique ownership of the vector.
pub struct BrandedVec<'brand, T> {
    values: Vec<T>,
    _brand: InvariantLifetime<'brand>,
}

impl<'brand, T> View for BrandedVec<'brand, T> {
    type V = Seq<T>;

    closed spec fn view(&self) -> Seq<T> {
        self.values@
    }
}

impl<'brand, T> BrandedVec<'brand, T> {
    /// Create an empty branded vector.
    pub fn new() -> (r: Self)
        ensures
            r@ == Seq::<T>::empty(),
    {
        BrandedVec { values: Vec::new(), _brand: PhantomData }
    }

    /// Create an empty branded vector with space for at least `capacity`
    /// values.
    pub fn with_capacity(capacity: usize) -> (r: Self)
        ensures
            r@ == Seq::<T>::empty(),
    {
        BrandedVec { values: Vec::with_capacity(capacity), _brand: PhantomData }
    }

    /// Generate `len` values in index order inside this brand.
    pub fn from_fn<F>(len: usize, generate: F) -> (r: Self)
        where
            F: FnMut(usize) -> T,
        requires
            forall|i: usize| generate.requires((i,)),
        ensures
            r@.len() == len,
            forall|i: int| 0 <= i < len ==> generator_output::<T, F>(i as usize, #[trigger] r@[i]),
            forall|i: int| #[trigger] index_in(i, len as int) ==> generate.ensures((i as usize,), r@[i]),
    {
        let ghost g0 = generate;
        let mut generate = generate;
        let mut values: Vec<T> = Vec::with_capacity(len);
        let mut i: usize = 0;
        while i < len
            invariant
                values@.len() == i,
                i <= len,
                forall|i: usize| generate.requires((i,)),
                forall|k: int| 0 <= k < i ==> generator_output::<T, F>(k as usize, #[trigger] values@[k]),
                generate == g0,
                forall|k: int| #[trigger] index_in(k, i as int) ==> g0.ensures((k as usize,), values@[k]),
            decreases len - i,
        {
            let ghost before = generate;
            let v = generate(i);
            assert(before.ensures((i,), v));
            assert(generate == before);
            let ghost values0 = values@;
            values.push(v);
            proof {
                assert forall|k: int| #[trigger] index_in(k, i + 1) implies g0.ensures((k as usize,), values@[k]) by {
                    if k < i {
                        assert(index_in(k, i as int));
                        assert(values@[k] == values0[k]);
                    } else {
                        assert(k as usize == i);
                        assert(values@[k] == v);
                    }
                }
            }
            i = i + 1;
        }
        BrandedVec { values, _brand: PhantomData }
    }

    /// Return the number of values in the vector.
    pub fn len(&self) -> (r: usize)
        ensures
            r == self@.len(),
    {
        self.values.len()
    }

    /// Return `true` when the vector contains no values.
    pub fn is_empty(&self) -> (r: bool)
        ensures
            r == (self@.len() == 0),
    {
        self.values.len() == 0
    }

    /// Return the current allocation capacity (at least the length).
    pub fn capacity(&self) -> (r: usize)
        ensures
            r >= self@.len(),
    {
        vec_capacity(&self.values)
    }

    /// Append `value` to the vector.
    pub fn push(&mut self, value: T)
        ensures
            final(self)@ == old(self)@.push(value),
    {
        self.values.push(value);
    }

    /// Remove the last value and return it, if present.
    pub fn pop(&mut self) -> (r: Option<T>)
        ensures
            old(self)@.len() == 0 ==> r is None && final(self)@ == old(self)@,
            old(self)@.len() > 0 ==> r == Some(old(self)@.last()) && final(self)@
                == old(self)@.drop_last(),
    {
        self.values.pop()
    }

    /// Insert `value` at `index`, shifting all following values to the right.
    pub fn insert(&mut self, index: usize, value: T)
        requires
            index <= old(self)@.len(),
        ensures
            final(self)@ == old(self)@.insert(index as int, value),
    {
        self.values.insert(index, value);
    }

    /// Remove and return the value at `index`, shifting following values left.
    pub fn remove(&mut self, index: usize) -> (r: T)
        requires
            index < old(self)@.len(),
        ensures
            r == old(self)@[index as int],
            final(self)@ == old(self)@.remove(index as int),
    {
        self.values.remove(index)
    }

    /// Remove and return the value at `index`, replacing it with the last
    /// value.
    pub fn swap_remove(&mut self, index: usize) -> (r: T)
        requires
            index < old(self)@.len(),
        ensures
            r == old(self)@[index as int],
            final(self)@ == old(self)@.update(index as int, old(self)@.last()).drop_last(),
    {
        let r = self.values.swap_remove(index);
        assert(final(self)@ =~= old(self)@.update(index as int, old(self)@.last()).drop_last());
        r
    }

    /// Swap the values at indices `a` and `b`.
    pub fn swap(&mut self, a: usize, b: usize)
        requires
            a < old(self)@.len(),
            b < old(self)@.len(),
        ensures
            final(self)@ == exchanged(old(self)@, a, b),
    {
        vec_exchange(&mut self.values, a, b);
    }

    /// Reserve capacity for at least `additional` more values.
    pub fn reserve(&mut self, additional: usize)
        ensures
            final(self)@ == old(self)@,
    {
        self.values.reserve(additional);
    }

    /// Remove all values from the vector.
    pub fn clear(&mut self)
        ensures
            final(self)@ == Seq::<T>::empty(),
    {
        self.values.clear();
    }

    /// Shorten the vector to `len`, dropping trailing values.
    pub fn truncate(&mut self, len: usize)
        ensures
            len <= old(self)@.len() ==> final(self)@ == old(self)@.subrange(0, len as int),
            len > old(self)@.len() ==> final(self)@ == old(self)@,
    {
        self.values.truncate(len);
    }

    /// Shrink capacity as close to length as the allocator permits.
    pub fn shrink_to_fit(&mut self)
        ensures
            final(self)@ == old(self)@,
    {
        vec_shrink_to_fit(&mut self.values);
    }

    /// Resize the vector to `new_len`, calling `f` for each inserted value.
    pub fn resize_with<F>(&mut self, new_len: usize, f: F)
        where
            F: FnMut() -> T,
        requires
            forall|u: ()| f.requires(u),
        ensures
            final(self)@.len() == new_len,
            forall|i: int|
                0 <= i < new_len && i < old(self)@.len() ==> #[trigger] final(self)@[i] == old(
                    self,
                )@[i],
            forall|i: int|
                old(self)@.len() <= i < new_len ==> filler_output::<T, F>(#[trigger] final(self)@[i]),
    {
        let mut f = f;
        self.values.truncate(new_len);
        let ghost kept = self.values@;
        while self.values.len() < new_len
            invariant
                self.values@.len() <= new_len,
                kept.len() <= self.values@.len(),
                kept == old(self)@.subrange(0, kept.len() as int),
                kept.len() == if new_len < old(self)@.len() { new_len as int } else { old(self)@.len() as int },
                forall|i: int| 0 <= i < kept.len() ==> #[trigger] self.values@[i] == kept[i],
                forall|i: int|
                    kept.len() <= i < self.values@.len() ==> filler_output::<T, F>(#[trigger] self.values@[i]),
                forall|u: ()| f.requires(u),
            decreases new_len - self.values@.len(),
        {
            let ghost before = f;
            let v = f();
            assert(before.ensures((), v));
            self.values.push(v);
        }
    }

    /// Retain only values for which `f` returns `true`, in order; `f` may
    /// update each value through its `&mut`.
    pub fn retain_mut<F>(&mut self, f: F)
        where
            F: FnMut(&mut T) -> bool,
        requires
            forall|x: &mut T| f.requires((x,)),
        ensures
            exists|news: Seq<T>, keeps: Seq<bool>|
                #![trigger kept_values(news, keeps)]
                {
                    &&& news.len() == old(self)@.len()
                    &&& keeps.len() == old(self)@.len()
                    &&& final(self)@ == kept_values(news, keeps)
                    &&& forall|i: int|
                        #[trigger] index_in(i, keeps.len() as int) ==> exists|g: F, x: &mut T|
                            #![trigger g.ensures((x,), keeps[i])]
                            *x == old(self)@[i] && *final(x) == news[i] && g.ensures((x,), keeps[i])
                },
    {
        let mut f = f;
        let mut rest = self.take_values();
        let ghost all = rest@;
        let mut pending: VecDeque<T> = VecDeque::new();
        while rest.len() > 0
            invariant
                rest@ + pending@ == all,
            decreases rest@.len(),
        {
            let ghost rest0 = rest@;
            let ghost pending0 = pending@;
            let v = rest.pop().unwrap();
            pending.push_front(v);
            assert(rest@ + pending@ =~= rest0 + pending0);
        }
        assert(pending@ =~= all);
        let ghost mut news: Seq<T> = Seq::empty();
        let ghost mut keeps: Seq<bool> = Seq::empty();
        while pending.len() > 0
            invariant
                all == old(self)@,
                keeps.len() + pending@.len() == all.len(),
                pending@ == all.subrange(keeps.len() as int, all.len() as int),
                self.values@ == kept_values(news, keeps),
                news.len() == keeps.len(),
                forall|x: &mut T| f.requires((x,)),
                forall|i: int|
                    #[trigger] index_in(i, keeps.len() as int) ==> exists|g: F, x: &mut T|
                        #![trigger g.ensures((x,), keeps[i])]
                        *x == all[i] && *final(x) == news[i] && g.ensures((x,), keeps[i]),
            decreases pending@.len(),
        {
            let v = pending.pop_front().unwrap();
            let ghost k = keeps.len() as int;
            let ghost fb = f;
            let (v, keep) = filter_step(&mut f, v);
            assert(exists|g: F, x: &mut T| *x == all[k] && *final(x) == v && g.ensures((x,), keep));
            let ghost newv = v;
            if keep {
                self.values.push(v);
            }
            proof {
                lemma_kept_values_push(news, keeps, newv, keep);
                let ghost news0 = news;
                let ghost keeps0 = keeps;
                news = news.push(newv);
                keeps = keeps.push(keep);
                assert forall|i: int|
                    #[trigger] index_in(i, keeps.len() as int) implies exists|g: F, x: &mut T|
                        #![trigger g.ensures((x,), keeps[i])]
                        *x == all[i] && *final(x) == news[i] && g.ensures((x,), keeps[i]) by {
                    if i < k {
                        assert(index_in(i, k));
                        assert(keeps[i] == keeps0[i]);
                        assert(news[i] == news0[i]);
                    } else {
                        assert(keeps[i] == keep);
                        assert(news[i] == newv);
                    }
                }
                assert(pending@ =~= all.subrange(keeps.len() as int, all.len() as int));
            }
        }
    }

    /// Move the values out, leaving the vector empty.
    fn take_values(&mut self) -> (r: Vec<T>)
        ensures
            r@ == old(self)@,
            final(self)@ == Seq::<T>::empty(),
    {
        let mut taken: Vec<T> = Vec::new();
        core::mem::swap(&mut taken, &mut self.values);
        taken
    }

    /// Split the vector into two at `at`, returning the right part.
    pub fn split_off(&mut self, at: usize) -> (r: Self)
        requires
            at <= old(self)@.len(),
        ensures
            final(self)@ == old(self)@.subrange(0, at as int),
            r@ == old(self)@.subrange(at as int, old(self)@.len() as int),
    {
        BrandedVec { values: self.values.split_off(at), _brand: PhantomData }
    }

    /// Remove the values in `range` and hand them out, in order, through a
    /// draining handle; the values after the range close the gap.
    pub fn drain(&mut self, range: Range<usize>) -> (r: BrandedDrain<'_, 'brand, T>)
        requires
            range.start <= range.end <= old(self)@.len(),
        ensures
            final(self)@ == old(self)@.subrange(0, range.start as int) + old(self)@.subrange(
                range.end as int,
                old(self)@.len() as int,
            ),
            r@ == old(self)@.subrange(range.start as int, range.end as int),
    {
        let mut tail = self.values.split_off(range.end);
        let mut middle = self.values.split_off(range.start);
        self.values.append(&mut tail);
        let ghost taken = middle@;
        let mut out: VecDeque<T> = VecDeque::new();
        while middle.len() > 0
            invariant
                middle@ + out@ == taken,
            decreases middle@.len(),
        {
            let ghost before = middle@;
            let ghost out_before = out@;
            let v = middle.pop().unwrap();
            out.push_front(v);
            assert(middle@ + out@ =~= before + out_before);
        }
        assert(out@ =~= taken);
        BrandedDrain { remaining: out, _borrow: PhantomData, _brand: PhantomData }
    }

    /// Move all values from `other` into `self`, leaving `other` empty.
    pub fn append(&mut self, other: &mut Self)
        ensures
            final(self)@ == old(self)@ + old(other)@,
            final(other)@ == Seq::<T>::empty(),
    {
        self.values.append(&mut other.values);
    }

    /// Return a permit-gated shared reference to one value.
    pub fn get<'a, P>(&'a self, index: usize, _permit: P) -> (r: Option<MelinoeRef<'a, 'brand, T>>)
        where
            P: ReadPermit<'brand> + 'a,
        ensures
            index < self@.len() ==> r is Some && r->Some_0@ == self@[index as int],
            index >= self@.len() ==> r is None,
    {
        if index < self.values.len() {
            Some(MelinoeRef::new(&self.values[index]))
        } else {
            None
        }
    }

    /// Return a permit-gated exclusive reference to one value; the other
    /// values are left as they are.
    pub fn get_mut<'a, P>(&'a mut self, index: usize, _permit: P) -> (r: Option<
        MelinoeMut<'a, 'brand, T>,
    >)
        where
            P: WritePermit<'brand> + 'a,
        ensures
            index < old(self)@.len() ==> {
                &&& r is Some
                &&& r->Some_0@ == old(self)@[index as int]
                &&& final(self)@ == old(self)@.update(index as int, *final(r->Some_0.target()))
            },
            index >= old(self)@.len() ==> r is None && final(self)@ == old(self)@,
    {
        if index < self.values.len() {
            let slice = self.values.as_mut_slice();
            let (head, tail) = slice.split_at_mut(index);
            let ghost fin_head = final(head)@;
            let ghost head_now = head@;
            match tail.first_mut() {
                Some(x) => {
                    let r = MelinoeMut::new(x);
                    proof {
                        assert(fin_head == head_now);
                    }
                    Some(r)
                },
                None => None,
            }
        } else {
            None
        }
    }

    /// View the whole vector as a shared slice without copying.
    pub fn as_slice<'a, P>(&'a self, _permit: P) -> (r: &'a [T])
        where
            P: ReadPermit<'brand> + 'a,
        ensures
            r@ == self@,
    {
        self.values.as_slice()
    }

    /// View the whole vector as an exclusive slice without copying.
    pub fn as_mut_slice<'a, P>(&'a mut self, _permit: P) -> (r: &'a mut [T])
        where
            P: WritePermit<'brand> + 'a,
        ensures
            r@ == old(self)@,
            final(self)@ == final(r)@,
    {
        self.values.as_mut_slice()
    }

    /// Return a zero-copy borrowed `Cow` over the branded slice.
    pub fn borrow_cow<'a, P>(&'a self, _permit: P) -> (r: Cow<'a, [T]>)
        where
            T: Clone,
            P: ReadPermit<'brand> + 'a,
        ensures
            cow_of(r, self@, false),
    {
        cow_if(self.values.as_slice(), RetainDecision::Borrow)
    }

    /// Return an owned `Cow` by cloning the branded slice exactly once.
    pub fn retain_cow<'a, P>(&'a self, _permit: P) -> (r: Cow<'a, [T]>)
        where
            T: Clone,
            P: ReadPermit<'brand> + 'a,
        ensures
            cow_of(r, self@, true),
    {
        cow_if(self.values.as_slice(), RetainDecision::Retain)
    }

    /// Return a `Cow` according to a compile-time ZST retain policy.
    pub fn cow_with<'a, P, C>(&'a self, _permit: P, _policy: C) -> (r: Cow<'a, [T]>)
        where
            T: Clone,
            P: ReadPermit<'brand> + 'a,
            C: CowPolicy,
        ensures
            cow_of(r, self@, C::retains()),
    {
        C::cow(self.values.as_slice())
    }

    /// Return a `Cow` according to a runtime retain decision.
    pub fn cow_if<'a, P>(&'a self, _permit: P, decision: RetainDecision) -> (r: Cow<'a, [T]>)
        where
            T: Clone,
            P: ReadPermit<'brand> + 'a,
        ensures
            cow_of(r, self@, decision == RetainDecision::Retain),
    {
        cow_if(self.values.as_slice(), decision)
    }

    /// Clone the branded vector by presenting a read permit.
    pub fn clone_with<'a, P>(&'a self, _permit: P) -> (r: Self)
        where
            T: Clone,
            P: ReadPermit<'brand> + 'a,
        ensures
            r@.len() == self@.len(),
            forall|i: int| 0 <= i < self@.len() ==> cloned(#[trigger] self@[i], r@[i]),
    {
        let mut values: Vec<T> = Vec::new();
        let mut i: usize = 0;
        while i < self.values.len()
            invariant
                i <= self@.len(),
                values@.len() == i,
                forall|k: int| 0 <= k < i ==> cloned(#[trigger] self@[k], values@[k]),
            decreases self@.len() - i,
        {
            let v = self.values[i].clone();
            values.push(v);
            i = i + 1;
        }
        BrandedVec { values, _brand: PhantomData }
    }

    /// Consume the branded vector and return the owned values: no copy, same
    /// allocation.
    pub fn into_vec(self) -> (r: Vec<T>)
        ensures
            r@ == self@,
    {
        self.values
    }

    /// Split the vector into disjoint exclusive shards of `chunk_len` values
    /// (clamped to at least `1`) and hand each to `f` with its start index,
    /// returning one result per shard in partition order.
    pub fn partition_map_mut_with<R, F>(&mut self, chunk_len: usize, f: F) -> (r: Vec<R>)
        where
            F: Fn(usize, &mut [T]) -> R,
        requires
            forall|start: usize, values: &mut [T]| f.requires((start, values)),
        ensures
            partitioned_write(f, old(self)@, Seq::<T>::empty(), clamped_chunk(chunk_len), r@),
            exists|s: Seq<DequeShard>, posts: Seq<Seq<T>>|
                #![trigger plan_of(s, old(self)@.len() as int, 0, clamped_chunk(chunk_len)), flatten(posts)]
                {
                    &&& plan_of(s, old(self)@.len() as int, 0, clamped_chunk(chunk_len))
                    &&& r@.len() == s.len()
                    &&& posts.len() == s.len()
                    &&& final(self)@ == flatten(posts)
                    &&& final(self)@.len() == old(self)@.len()
                    &&& forall|i: int|
                        #[trigger] index_in(i, posts.len() as int) ==> exists|values: &mut [T]|
                            #![trigger f.ensures((s[i].start, values), r@[i])]
                            {
                                &&& values@ == shard_values(s[i], old(self)@, Seq::<T>::empty())
                                &&& final(values)@ == posts[i]
                                &&& final(values)@.len() == values@.len()
                                &&& f.ensures((s[i].start, values), r@[i])
                            }
                },
    {
        let len = self.values.len();
        let plan = DequeShardPlan::from_lengths(len, 0, chunk_len);
        let slice = whole_slice_mut(self.values.as_mut_slice());
        let (all, none) = slice.split_at_mut(len);
        let ghost front = all@;
        let ghost back = none@;
        let ghost fin = final(all)@ + final(none)@;
        let r = plan.map_mut(all, none, f);
        proof {
            assert(plan_of(plan.shard_seq(), len as int, 0, plan.chunk()));
            assert(front =~= old(self)@);
            assert(back =~= Seq::<T>::empty());
            assert(partitioned_write(f, front, back, clamped_chunk(chunk_len), r@));
            let sh = plan.shard_seq();
            let posts = choose|posts: Seq<Seq<T>>|
                #![trigger flatten(posts)]
                {
                    &&& posts.len() == r@.len()
                    &&& fin == flatten(posts)
                    &&& forall|i: int|
                        #[trigger] index_in(i, posts.len() as int) ==> exists|values: &mut [T]|
                            #![trigger f.ensures((sh[i].start, values), r@[i])]
                            {
                                &&& values@ == shard_values(sh[i], front, back)
                                &&& final(values)@ == posts[i]
                                &&& final(values)@.len() == values@.len()
                                &&& f.ensures((sh[i].start, values), r@[i])
                            }
                };
            assert(fin == flatten(posts));
            assert(fin.len() == old(self)@.len());
            assert(plan_of(sh, old(self)@.len() as int, 0, clamped_chunk(chunk_len)));
        }
        r
    }

    /// Split the vector into disjoint exclusive shards as
    /// [`partition_map_mut_with`](Self::partition_map_mut_with) does and hand
    /// each to `f`, discarding results.
    pub fn partition_for_each_mut_with<F>(&mut self, chunk_len: usize, f: F)
        where
            F: Fn(usize, &mut [T]),
        requires
            forall|start: usize, values: &mut [T]| f.requires((start, values)),
        ensures
            exists|r: Seq<()>|
                #[trigger] partitioned_write(f, old(self)@, Seq::<T>::empty(), clamped_chunk(chunk_len), r),
            exists|s: Seq<DequeShard>, posts: Seq<Seq<T>>|
                #![trigger plan_of(s, old(self)@.len() as int, 0, clamped_chunk(chunk_len)), flatten(posts)]
                {
                    &&& plan_of(s, old(self)@.len() as int, 0, clamped_chunk(chunk_len))
                    &&& posts.len() == s.len()
                    &&& final(self)@ == flatten(posts)
                    &&& final(self)@.len() == old(self)@.len()
                    &&& forall|i: int|
                        #[trigger] index_in(i, posts.len() as int) ==> exists|values: &mut [T]|
                            #![trigger f.ensures((s[i].start, values), ())]
                            {
                                &&& values@ == shard_values(s[i], old(self)@, Seq::<T>::empty())
                                &&& final(values)@ == posts[i]
                                &&& final(values)@.len() == values@.len()
                                &&& f.ensures((s[i].start, values), ())
                            }
                },
    {
        let ghost old_values = self@;
        let ghost fin = final(self)@;
        let r = self.partition_map_mut_with(chunk_len, f);
        assert(partitioned_write(f, old_values, Seq::<T>::empty(), clamped_chunk(chunk_len), r@));
        proof {
            let (sh, posts) = choose|s: Seq<DequeShard>, posts: Seq<Seq<T>>|
                #![trigger plan_of(s, old_values.len() as int, 0, clamped_chunk(chunk_len)), flatten(posts)]
                {
                    &&& plan_of(s, old_values.len() as int, 0, clamped_chunk(chunk_len))
                    &&& r@.len() == s.len()
                    &&& posts.len() == s.len()
                    &&& fin == flatten(posts)
                    &&& fin.len() == old_values.len()
                    &&& forall|i: int|
                        #[trigger] index_in(i, posts.len() as int) ==> exists|values: &mut [T]|
                            #![trigger f.ensures((s[i].start, values), r@[i])]
                            {
                                &&& values@ == shard_values(s[i], old_values, Seq::<T>::empty())
                                &&& final(values)@ == posts[i]
                                &&& final(values)@.len() == values@.len()
                                &&& f.ensures((s[i].start, values), r@[i])
                            }
                };
            assert forall|i: int|
                #[trigger] index_in(i, posts.len() as int) implies exists|values: &mut [T]|
                    #![trigger f.ensures((sh[i].start, values), ())]
                    {
                        &&& values@ == shard_values(sh[i], old_values, Seq::<T>::empty())
                        &&& final(values)@ == posts[i]
                        &&& final(values)@.len() == values@.len()
                        &&& f.ensures((sh[i].start, values), ())
                    } by {
                assert(r@[i] == ());
            }
            assert(fin == flatten(posts));
        }
    }

    /// Split a permit-gated shared view into disjoint read shards of
    /// `chunk_len` values (clamped to at least `1`) and run `f` on each with
    /// its start index, returning one result per shard in partition order.
    pub fn partition_map_with<'a, P, R, F>(&'a self, _permit: P, chunk_len: usize, f: F) -> (r: Vec<R>)
        where
            P: ReadPermit<'brand> + 'a,
            F: Fn(usize, &[T]) -> R,
        requires
            forall|start: usize, values: &[T]| f.requires((start, values)),
        ensures
            partitioned_read(
                f,
                self@,
                Seq::<T>::empty(),
                clamped_chunk(chunk_len),
                r@,
            ),
    {
        let len = self.values.len();
        let plan = DequeShardPlan::from_lengths(len, 0, chunk_len);
        let slice = self.values.as_slice();
        let (all, none) = slice.split_at(len);
        proof {
            lemma_plan_fits(plan.shard_seq(), len as int, 0, plan.chunk());
            assert(all@ =~= self@);
            assert(none@ =~= Seq::<T>::empty());
        }
        let r = plan.map_read(all, none, f);
        proof {
            assert(plan_of(plan.shard_seq(), all@.len() as int, none@.len() as int, plan.chunk()));
        }
        r
    }

    /// Split a permit-gated shared view into disjoint read shards as
    /// [`partition_map_with`](Self::partition_map_with) does and run `f` on
    /// each, discarding results.
    pub fn partition_for_each_with<'a, P, F>(&'a self, permit: P, chunk_len: usize, f: F)
        where
            P: ReadPermit<'brand> + 'a,
            F: Fn(usize, &[T]),
        requires
            forall|start: usize, values: &[T]| f.requires((start, values)),
        ensures
            exists|r: Seq<()>|
                #[trigger] partitioned_read(f, self@, Seq::<T>::empty(), clamped_chunk(chunk_len), r),
    {
        let r = self.partition_map_with(permit, chunk_len, f);
        assert(partitioned_read(f, self@, Seq::<T>::empty(), clamped_chunk(chunk_len), r@));
    }
}

impl<'brand, T> From<Vec<T>> for BrandedVec<'brand, T> {
    /// Brand an owned vector, in place: no copy, same allocation.
    fn from(values: Vec<T>) -> (r: Self)
        ensures
            r@ == values@,
    {
        BrandedVec { values, _brand: PhantomData }
    }
}

impl<'brand, T> vstd::std_specs::convert::FromSpecImpl<Vec<T>> for BrandedVec<'brand, T> {
    open spec fn obeys_from_spec() -> bool {
        true
    }

    closed spec fn from_spec(values: Vec<T>) -> Self {
        BrandedVec { values, _brand: PhantomData }
    }
}

/// The values removed by [`BrandedVec::drain`], handed out from either end.
///
/// The range is removed from the vector when `drain` returns; values not
/// taken are dropped with the handle.
pub struct BrandedDrain<'a, 'brand, T> {
    remaining: VecDeque<T>,
    _borrow: PhantomData<&'a mut ()>,
    _brand: InvariantLifetime<'brand>,
}

impl<'a, 'brand, T> View for BrandedDrain<'a, 'brand, T> {
    type V = Seq<T>;

    closed spec fn view(&self) -> Seq<T> {
        self.remaining@
    }
}

impl<'a, 'brand, T> BrandedDrain<'a, 'brand, T> {
    /// Take the next value from the front.
    pub fn next(&mut self) -> (r: Option<T>)
        ensures
            old(self)@.len() == 0 ==> r is None && final(self)@ == old(self)@,
            old(self)@.len() > 0 ==> r == Some(old(self)@[0]) && final(self)@ == old(self)@.drop_first(),
    {
        self.remaining.pop_front()
    }

    /// Take the next value from the back.
    pub fn next_back(&mut self) -> (r: Option<T>)
        ensures
            old(self)@.len() == 0 ==> r is None && final(self)@ == old(self)@,
            old(self)@.len() > 0 ==> r == Some(old(self)@.last()) && final(self)@ == old(self)@.drop_last(),
    {
        self.remaining.pop_back()
    }

    /// The number of values not yet taken.
    pub fn len(&self) -> (r: usize)
        ensures
            r == self@.len(),
    {
        self.remaining.len()
    }

    /// The exact bounds on the number of values not yet taken.
    pub fn size_hint(&self) -> (r: (usize, Option<usize>))
        ensures
            r.0 == self@.len(),
            r.1 == Some(self@.len() as usize),
    {
        let n = self.remaining.len();
        (n, Some(n))
    }
}

/// `v` is a value the filler `F`, in some state, may return.
pub open spec fn filler_output<T, F: FnMut() -> T>(v: T) -> bool {
    exists|g: F| #[trigger] g.ensures((), v)
}

/// `v` is a value the generator `F`, in some state, may return for index
/// `index` (a stateful `FnMut` generator may answer each call differently).
pub open spec fn generator_output<T, F: FnMut(usize) -> T>(index: usize, v: T) -> bool {
    exists|g: F| #[trigger] g.ensures((index,), v)
}

/// `r` is a result `f` may return for some branded vector of `len` values,
/// each one an output of the generator `G` for its index, and a token.
pub open spec fn generated_result<T, R, G, F>(len: usize, f: F, r: R) -> bool
    where
        G: FnMut(usize) -> T,
        F: for<'brand> FnOnce(BrandedVec<'brand, T>, ExclusiveToken<'brand>) -> R,
{
    exists|v: BrandedVec<T>, t: ExclusiveToken|
        #![trigger f.ensures((v, t), r)]
        {
            &&& v@.len() == len
            &&& forall|i: int| 0 <= i < len ==> generator_output::<T, G>(i as usize, #[trigger] v@[i])
            &&& f.ensures((v, t), r)
        }
}

/// Generate a branded vector under a fresh brand and run `f` with it and the
/// brand's unique token; `f`'s result escapes, the vector and token cannot.
pub fn with_generated<T, R, G, F>(len: usize, generate: G, f: F) -> (r: R)
    where
        G: FnMut(usize) -> T,
        F: for<'brand> FnOnce(BrandedVec<'brand, T>, ExclusiveToken<'brand>) -> R,
    requires
        forall|i: usize| generate.requires((i,)),
        forall|v: BrandedVec<T>, t: ExclusiveToken| f.requires((v, t)),
    ensures
        generated_result::<T, R, G, F>(len, f, r),
{
    let token = ExclusiveToken::mint();
    let values = BrandedVec::from_fn(len, generate);
    let out = f(values, token);
    assert(f.ensures((values, token), out));
    out
}

} // verus!
