//! [`BrandedVecDeque`] — `VecDeque` storage whose element access is gated by
//! a brand.
use core::marker::PhantomData;
use core::ops::Range;
use std::borrow::Cow;
use std::collections::VecDeque;
use vstd::prelude::*;

use super::branded_vec::{exchanged, filter_step, kept_values, lemma_kept_values_push};
use super::deque_plan::{
    clamped_chunk, flatten, index_in, lemma_plan_fits, partitioned_read, partitioned_write, plan_of,
    shard_values, DequeShard, DequeShardPlan,
};
use crate::cell::{cow_of, Borrowed, CowPolicy, MelinoeMut, MelinoeRef, RetainDecision, Retained};
use crate::token::{InvariantLifetime, ReadPermit, WritePermit};

verus! {

/// Calls `VecDeque::capacity`. Trusted to be at least the length, as `std`
/// documents; the exact value depends on the allocator and is not claimed.
#[verifier::external_body]
fn deque_capacity<X>(v: &VecDeque<X>) -> (r: usize)
    ensures
        r >= v@.len(),
{
    v.capacity()
}

/// Calls `VecDeque::shrink_to_fit`. Trusted to leave the elements unchanged,
/// as `std` documents (only the capacity shrinks).
#[verifier::external_body]
fn deque_shrink_to_fit<X>(v: &mut VecDeque<X>)
    ensures
        final(v)@ == old(v)@,
{
    v.shrink_to_fit()
}

/// Calls `VecDeque::swap`. Trusted to exchange the elements at `a` and `b`
/// and leave the others, as `std` documents; it panics on an index out of
/// bounds, which `requires` excludes.
#[verifier::external_body]
fn deque_exchange<X>(v: &mut VecDeque<X>, a: usize, b: usize)
    requires
        a < old(v)@.len(),
        b < old(v)@.len(),
    ensures
        final(v)@ == exchanged(old(v)@, a, b),
{
    v.swap(a, b)
}

/// Calls `VecDeque::as_slices`. Trusted, as `std` documents, to return the
/// deque's contents in order as two slices. Where the storage wraps is not
/// claimed.
#[verifier::external_body]
fn deque_as_slices<X>(v: &VecDeque<X>) -> (r: (&[X], &[X]))
    ensures
        r.0@ + r.1@ == v@,
{
    v.as_slices()
}

/// Calls `VecDeque::as_mut_slices`. Trusted, as `std` documents, to return
/// the deque's contents in order as two slices of its storage, so that writes
/// through them are the deque's contents afterwards; a slice's length is
/// fixed, so each keeps its length. Where the storage wraps is not claimed.
#[verifier::external_body]
fn deque_as_mut_slices<X>(v: &mut VecDeque<X>) -> (r: (&mut [X], &mut [X]))
    ensures
        r.0@ + r.1@ == old(v)@,
        final(v)@ == final(r.0)@ + final(r.1)@,
        final(r.0)@.len() == r.0@.len(),
        final(r.1)@.len() == r.1@.len(),
{
    v.as_mut_slices()
}

/// Calls `VecDeque::get_mut`. Trusted, as `std` documents, to give the
/// element at `index` (counted from the front) when it exists and `None`
/// otherwise, so that a write through it is that element afterwards.
#[verifier::external_body]
fn deque_get_mut<X>(v: &mut VecDeque<X>, index: usize) -> (r: Option<&mut X>)
    ensures
        index < old(v)@.len() ==> {
            &&& r.is_some()
            &&& *r.unwrap() == old(v)@[index as int]
            &&& final(v)@ == old(v)@.update(index as int, *final(r.unwrap()))
        },
        index >= old(v)@.len() ==> r.is_none() && final(v)@ == old(v)@,
{
    v.get_mut(index)
}

/// The `Cow` handed out over a deque's two storage segments with the
/// retain policy `retain`: when the second segment is empty the policy
/// decides, otherwise the values are cloned into an owned vector.
pub open spec fn segments_cow<'x, T: Clone>(
    r: Cow<'x, [T]>,
    front: Seq<T>,
    back: Seq<T>,
    retain: bool,
) -> bool {
    if back.len() == 0 {
        cow_of(r, front, retain)
    } else {
        cow_of(r, front + back, true)
    }
}

/// Build the `Cow` over two storage segments: borrow-or-clone by `C` when the
/// second segment is empty, an owned copy when the values wrap.
pub fn cow_from_segments<'x, T: Clone, C: CowPolicy>(front: &'x [T], back: &'x [T], _policy: C) -> (r: Cow<'x, [T]>)
    ensures
        segments_cow(r, front@, back@, C::retains()),
{
    if back.len() == 0 {
        C::cow(front)
    } else {
        let mut out: Vec<T> = Vec::new();
        let mut i: usize = 0;
        while i < front.len()
            invariant
                i <= front@.len(),
                out@.len() == i,
                forall|k: int| 0 <= k < i ==> cloned(#[trigger] front@[k], out@[k]),
            decreases front@.len() - i,
        {
            out.push(front[i].clone());
            i = i + 1;
        }
        let mut j: usize = 0;
        while j < back.len()
            invariant
                j <= back@.len(),
                out@.len() == front@.len() + j,
                forall|k: int| 0 <= k < front@.len() ==> cloned(#[trigger] front@[k], out@[k]),
                forall|k: int|
                    0 <= k < j ==> cloned(#[trigger] back@[k], out@[front@.len() + k]),
            decreases back@.len() - j,
        {
            out.push(back[j].clone());
            j = j + 1;
        }
        proof {
            let all = front@ + back@;
            assert forall|k: int| 0 <= k < all.len() implies cloned(#[trigger] all[k], out@[k]) by {
                if k >= front@.len() {
                    assert(all[k] == back@[k - front@.len()]);
                    assert(cloned(back@[k - front@.len()], out@[front@.len() + (k - front@.len())]));
                }
            }
        }
        Cow::Owned(out)
    }
}

/// A branded double-ended queue: a `VecDeque` whose element reads require a
/// permit for `'brand`.
///
/// The queue owns allocation and indexing; the brand owns the access proof.
/// Shared views need a [`ReadPermit`]; exclusive views need a
/// [`WritePermit`] together with unique ownership of the queue.
pub struct BrandedVecDeque<'brand, T> {
    values: VecDeque<T>,
    _brand: InvariantLifetime<'brand>,
}

impl<'brand, T> View for BrandedVecDeque<'brand, T> {
    type V = Seq<T>;

    closed spec fn view(&self) -> Seq<T> {
        self.values@
    }
}

impl<'brand, T> From<VecDeque<T>> for BrandedVecDeque<'brand, T> {
    /// Brand an owned queue, in place: no copy, same allocation.
    fn from(values: VecDeque<T>) -> (r: Self)
        ensures
            r@ == values@,
    {
        BrandedVecDeque { values, _brand: PhantomData }
    }
}

impl<'brand, T> vstd::std_specs::convert::FromSpecImpl<VecDeque<T>> for BrandedVecDeque<'brand, T> {
    open spec fn obeys_from_spec() -> bool {
        true
    }

    closed spec fn from_spec(values: VecDeque<T>) -> Self {
        BrandedVecDeque { values, _brand: PhantomData }
    }
}

/// The values removed by [`BrandedVecDeque::drain`], handed out from either
/// end.
///
/// The range is removed from the queue when `drain` returns; values not taken
/// are dropped with the handle.
pub struct BrandedVecDequeDrain<'a, 'brand, T> {
    remaining: VecDeque<T>,
    _borrow: PhantomData<&'a mut ()>,
    _brand: InvariantLifetime<'brand>,
}

impl<'a, 'brand, T> View for BrandedVecDequeDrain<'a, 'brand, T> {
    type V = Seq<T>;

    closed spec fn view(&self) -> Seq<T> {
        self.remaining@
    }
}

impl<'a, 'brand, T> BrandedVecDequeDrain<'a, 'brand, T> {
    /// Take the next value from the front.
    pub fn next(&mut self) -> (r: Option<T>)
        ensures
            old(self)@.len() == 0 ==> r is None && final(self)@ == old(self)@,
            old(self)@.len() > 0 ==> r == Some(old(self)@[0]) && final(self)@ == old(self)@.drop_first(),
    {
        self.remaining.pop_front()
    }

    /// Take the next value from the back.
    pub fn next_back(&mut self) -> (r: Option<T>)
        ensures
            old(self)@.len() == 0 ==> r is None && final(self)@ == old(self)@,
            old(self)@.len() > 0 ==> r == Some(old(self)@.last()) && final(self)@ == old(self)@.drop_last(),
    {
        self.remaining.pop_back()
    }

    /// The number of values not yet taken.
    pub fn len(&self) -> (r: usize)
        ensures
            r == self@.len(),
    {
        self.remaining.len()
    }

    /// The exact bounds on the number of values not yet taken.
    pub fn size_hint(&self) -> (r: (usize, Option<usize>))
        ensures
            r.0 == self@.len(),
            r.1 == Some(self@.len() as usize),
    {
        let n = self.remaining.len();
        (n, Some(n))
    }
}

impl<'brand, T> BrandedVecDeque<'brand, T> {
    /// Create an empty branded double-ended queue.
    pub fn new() -> (r: Self)
        ensures
            r@ == Seq::<T>::empty(),
    {
        BrandedVecDeque { values: VecDeque::new(), _brand: PhantomData }
    }

    /// Create an empty branded queue with space for at least `capacity`
    /// values.
    pub fn with_capacity(capacity: usize) -> (r: Self)
        ensures
            r@ == Seq::<T>::empty(),
    {
        BrandedVecDeque { values: VecDeque::with_capacity(capacity), _brand: PhantomData }
    }

    /// Return the number of values in the queue.
    pub fn len(&self) -> (r: usize)
        ensures
            r == self@.len(),
    {
        self.values.len()
    }

    /// Return `true` when the queue contains no values.
    pub fn is_empty(&self) -> (r: bool)
        ensures
            r == (self@.len() == 0),
    {
        self.values.len() == 0
    }

    /// Return the current allocation capacity (at least the length).
    pub fn capacity(&self) -> (r: usize)
        ensures
            r >= self@.len(),
    {
        deque_capacity(&self.values)
    }

    /// Append `value` to the back of the queue.
    pub fn push_back(&mut self, value: T)
        ensures
            final(self)@ == old(self)@.push(value),
    {
        self.values.push_back(value);
    }

    /// Prepend `value` to the front of the queue.
    pub fn push_front(&mut self, value: T)
        ensures
            final(self)@ == seq![value] + old(self)@,
    {
        self.values.push_front(value);
    }

    /// Remove the last value and return it, if present.
    pub fn pop_back(&mut self) -> (r: Option<T>)
        ensures
            old(self)@.len() == 0 ==> r is None && final(self)@ == old(self)@,
            old(self)@.len() > 0 ==> r == Some(old(self)@.last()) && final(self)@
                == old(self)@.drop_last(),
    {
        let r = self.values.pop_back();
        assert(old(self)@.len() > 0 ==> final(self)@ =~= old(self)@.drop_last());
        r
    }

    /// Remove the first value and return it, if present.
    pub fn pop_front(&mut self) -> (r: Option<T>)
        ensures
            old(self)@.len() == 0 ==> r is None && final(self)@ == old(self)@,
            old(self)@.len() > 0 ==> r == Some(old(self)@[0]) && final(self)@ == old(self)@.drop_first(),
    {
        let r = self.values.pop_front();
        assert(old(self)@.len() > 0 ==> final(self)@ =~= old(self)@.drop_first());
        r
    }

    /// Remove all values from the queue.
    pub fn clear(&mut self)
        ensures
            final(self)@ == Seq::<T>::empty(),
    {
        self.values.clear();
    }

    /// Reserve capacity for at least `additional` more values.
    pub fn reserve(&mut self, additional: usize)
        ensures
            final(self)@ == old(self)@,
    {
        self.values.reserve(additional);
    }

    /// Shrink capacity as close to length as the allocator permits.
    pub fn shrink_to_fit(&mut self)
        ensures
            final(self)@ == old(self)@,
    {
        deque_shrink_to_fit(&mut self.values);
    }

    /// Shorten the queue to `len`, dropping trailing values.
    pub fn truncate(&mut self, len: usize)
        ensures
            len <= old(self)@.len() ==> final(self)@ == old(self)@.subrange(0, len as int),
            len > old(self)@.len() ==> final(self)@ == old(self)@,
    {
        self.values.truncate(len);
    }

    /// Swap the values at indices `a` and `b`.
    pub fn swap(&mut self, a: usize, b: usize)
        requires
            a < old(self)@.len(),
            b < old(self)@.len(),
        ensures
            final(self)@ == exchanged(old(self)@, a, b),
    {
        deque_exchange(&mut self.values, a, b);
    }

    /// Split the queue into two at `at`, returning the right part.
    pub fn split_off(&mut self, at: usize) -> (r: Self)
        requires
            at <= old(self)@.len(),
        ensures
            final(self)@ == old(self)@.subrange(0, at as int),
            r@ == old(self)@.subrange(at as int, old(self)@.len() as int),
    {
        BrandedVecDeque { values: self.values.split_off(at), _brand: PhantomData }
    }

    /// Remove the values in `range` (logical indices, front first) and hand
    /// them out, in order, through a draining handle; the values after the
    /// range close the gap.
    pub fn drain(&mut self, range: Range<usize>) -> (r: BrandedVecDequeDrain<'_, 'brand, T>)
        requires
            range.start <= range.end <= old(self)@.len(),
        ensures
            final(self)@ == old(self)@.subrange(0, range.start as int) + old(self)@.subrange(
                range.end as int,
                old(self)@.len() as int,
            ),
            r@ == old(self)@.subrange(range.start as int, range.end as int),
    {
        let mut tail = self.values.split_off(range.end);
        let middle = self.values.split_off(range.start);
        self.values.append(&mut tail);
        BrandedVecDequeDrain { remaining: middle, _borrow: PhantomData, _brand: PhantomData }
    }

    /// Move all values from `other` into `self`, leaving `other` empty.
    pub fn append(&mut self, other: &mut Self)
        ensures
            final(self)@ == old(self)@ + old(other)@,
            final(other)@ == Seq::<T>::empty(),
    {
        self.values.append(&mut other.values);
    }

    /// Retain only values for which `f` returns `true`, in order; `f` may
    /// update each value through its `&mut`.
    pub fn retain_mut<F>(&mut self, f: F)
        where
            F: FnMut(&mut T) -> bool,
        requires
            forall|x: &mut T| f.requires((x,)),
        ensures
            exists|news: Seq<T>, keeps: Seq<bool>|
                #![trigger kept_values(news, keeps)]
                {
                    &&& news.len() == old(self)@.len()
                    &&& keeps.len() == old(self)@.len()
                    &&& final(self)@ == kept_values(news, keeps)
                    &&& forall|i: int|
                        #[trigger] index_in(i, keeps.len() as int) ==> exists|g: F, x: &mut T|
                            #![trigger g.ensures((x,), keeps[i])]
                            *x == old(self)@[i] && *final(x) == news[i] && g.ensures((x,), keeps[i])
                },
    {
        let mut f = f;
        let mut kept: VecDeque<T> = VecDeque::new();
        let ghost mut news: Seq<T> = Seq::empty();
        let ghost mut keeps: Seq<bool> = Seq::empty();
        let ghost all = self.values@;
        while self.values.len() > 0
            invariant
                all == old(self)@,
                keeps.len() + self.values@.len() == all.len(),
                self.values@ == all.subrange(keeps.len() as int, all.len() as int),
                kept@ == kept_values(news, keeps),
                news.len() == keeps.len(),
                forall|x: &mut T| f.requires((x,)),
                forall|i: int|
                    #[trigger] index_in(i, keeps.len() as int) ==> exists|g: F, x: &mut T|
                        #![trigger g.ensures((x,), keeps[i])]
                        *x == all[i] && *final(x) == news[i] && g.ensures((x,), keeps[i]),
            decreases self.values@.len(),
        {
            let v = self.values.pop_front().unwrap();
            let ghost k = keeps.len() as int;
            let ghost fb = f;
            let (v, keep) = filter_step(&mut f, v);
            assert(exists|g: F, x: &mut T| *x == all[k] && *final(x) == v && g.ensures((x,), keep));
            let ghost newv = v;
            if keep {
                kept.push_back(v);
            }
            proof {
                lemma_kept_values_push(news, keeps, newv, keep);
                let ghost news0 = news;
                let ghost keeps0 = keeps;
                news = news.push(newv);
                keeps = keeps.push(keep);
                assert forall|i: int|
                    #[trigger] index_in(i, keeps.len() as int) implies exists|g: F, x: &mut T|
                        #![trigger g.ensures((x,), keeps[i])]
                        *x == all[i] && *final(x) == news[i] && g.ensures((x,), keeps[i]) by {
                    if i < k {
                        assert(index_in(i, k));
                        assert(keeps[i] == keeps0[i]);
                        assert(news[i] == news0[i]);
                    } else {
                        assert(keeps[i] == keep);
                        assert(news[i] == newv);
                    }
                }
                assert(self.values@ =~= all.subrange(keeps.len() as int, all.len() as int));
            }
        }
        self.values.append(&mut kept);
    }

    /// Return a permit-gated shared reference to one value.
    pub fn get<'a, P>(&'a self, index: usize, _permit: P) -> (r: Option<MelinoeRef<'a, 'brand, T>>)
        where
            P: ReadPermit<'brand> + 'a,
        ensures
            index < self@.len() ==> r is Some && r->Some_0@ == self@[index as int],
            index >= self@.len() ==> r is None,
    {
        if index < self.values.len() {
            Some(MelinoeRef::new(&self.values[index]))
        } else {
            None
        }
    }

    /// Return a permit-gated exclusive reference to one value; the other
    /// values are left as they are.
    pub fn get_mut<'a, P>(&'a mut self, index: usize, _permit: P) -> (r: Option<
        MelinoeMut<'a, 'brand, T>,
    >)
        where
            P: WritePermit<'brand> + 'a,
        ensures
            index < old(self)@.len() ==> {
                &&& r is Some
                &&& r->Some_0@ == old(self)@[index as int]
                &&& final(self)@ == old(self)@.update(index as int, *final(r->Some_0.target()))
            },
            index >= old(self)@.len() ==> r is None && final(self)@ == old(self)@,
    {
        match deque_get_mut(&mut self.values, index) {
            Some(x) => Some(MelinoeMut::new(x)),
            None => None,
        }
    }

    /// View the queue as a pair of shared slices: the values in order, split
    /// where the ring buffer wraps.
    pub fn as_slices<'a, P>(&'a self, _permit: P) -> (r: (&'a [T], &'a [T]))
        where
            P: ReadPermit<'brand> + 'a,
        ensures
            r.0@ + r.1@ == self@,
    {
        deque_as_slices(&self.values)
    }

    /// View the queue as a pair of exclusive slices: the values in order,
    /// split where the ring buffer wraps.
    pub fn as_mut_slices<'a, P>(&'a mut self, _permit: P) -> (r: (&'a mut [T], &'a mut [T]))
        where
            P: WritePermit<'brand> + 'a,
        ensures
            r.0@ + r.1@ == old(self)@,
            final(self)@ == final(r.0)@ + final(r.1)@,
    {
        deque_as_mut_slices(&mut self.values)
    }

    /// Return a `Cow` over the queue: borrowed zero-copy when the values are
    /// contiguous, an owned copy when they wrap.
    pub fn borrow_cow<'a, P>(&'a self, _permit: P) -> (r: Cow<'a, [T]>)
        where
            T: Clone,
            P: ReadPermit<'brand> + 'a,
        ensures
            cow_of(r, self@, false) || cow_of(r, self@, true),
    {
        let (s1, s2) = deque_as_slices(&self.values);
        cow_from_segments(s1, s2, Borrowed)
    }

    /// Return an owned `Cow` by cloning all queue values into a vector.
    pub fn retain_cow<'a, P>(&'a self, _permit: P) -> (r: Cow<'a, [T]>)
        where
            T: Clone,
            P: ReadPermit<'brand> + 'a,
        ensures
            cow_of(r, self@, true),
    {
        let (s1, s2) = deque_as_slices(&self.values);
        cow_from_segments(s1, s2, Retained)
    }

    /// Return a `Cow` according to a runtime retain decision.
    pub fn cow_if<'a, P>(&'a self, permit: P, decision: RetainDecision) -> (r: Cow<'a, [T]>)
        where
            T: Clone,
            P: ReadPermit<'brand> + 'a,
        ensures
            decision == RetainDecision::Retain ==> cow_of(r, self@, true),
            decision == RetainDecision::Borrow ==> cow_of(r, self@, false) || cow_of(r, self@, true),
    {
        match decision {
            RetainDecision::Borrow => self.borrow_cow(permit),
            RetainDecision::Retain => self.retain_cow(permit),
        }
    }

    /// Return a `Cow` according to a compile-time ZST retain policy: the
    /// policy decides when the values are contiguous; when they wrap they are
    /// always cloned into an owned vector.
    pub fn cow_with<'a, P, C>(&'a self, _permit: P, policy: C) -> (r: Cow<'a, [T]>)
        where
            T: Clone,
            P: ReadPermit<'brand> + 'a,
            C: CowPolicy,
        ensures
            cow_of(r, self@, C::retains()) || cow_of(r, self@, true),
    {
        let (s1, s2) = deque_as_slices(&self.values);
        cow_from_segments(s1, s2, policy)
    }

    /// Clone the branded queue by presenting a read permit.
    pub fn clone_with<'a, P>(&'a self, _permit: P) -> (r: Self)
        where
            T: Clone,
            P: ReadPermit<'brand> + 'a,
        ensures
            r@.len() == self@.len(),
            forall|i: int| 0 <= i < self@.len() ==> cloned(#[trigger] self@[i], r@[i]),
    {
        let mut values: VecDeque<T> = VecDeque::with_capacity(self.values.len());
        let mut i: usize = 0;
        while i < self.values.len()
            invariant
                i <= self@.len(),
                values@.len() == i,
                forall|k: int| 0 <= k < i ==> cloned(#[trigger] self@[k], values@[k]),
            decreases self@.len() - i,
        {
            let v = self.values[i].clone();
            values.push_back(v);
            i = i + 1;
        }
        BrandedVecDeque { values, _brand: PhantomData }
    }

    /// Consume the branded queue and return the owned values: no copy, same
    /// allocation.
    pub fn into_vec_deque(self) -> (r: VecDeque<T>)
        ensures
            r@ == self@,
    {
        self.values
    }

    /// Split a permit-gated shared queue into disjoint read shards — logical
    /// chunks of `chunk_len` values (clamped to at least `1`), a chunk that
    /// crosses the ring-buffer wrap exposed as two shards with their logical
    /// starts — and run `f` on each, returning the results in partition order.
    pub fn partition_map_with<'a, P, R, F>(&'a self, _permit: P, chunk_len: usize, f: F) -> (r: Vec<R>)
        where
            P: ReadPermit<'brand> + 'a,
            F: Fn(usize, &[T]) -> R,
        requires
            forall|start: usize, values: &[T]| f.requires((start, values)),
        ensures
            exists|front_len: int|
                0 <= front_len <= self@.len() && #[trigger] partitioned_read(
                    f,
                    self@.subrange(0, front_len),
                    self@.subrange(front_len, self@.len() as int),
                    clamped_chunk(chunk_len),
                    r@,
                ),
    {
        let total = self.values.len();
        let (s1, s2) = deque_as_slices(&self.values);
        proof {
            assert(s1@.len() + s2@.len() == total);
        }
        let plan = DequeShardPlan::from_lengths(s1.len(), s2.len(), chunk_len);
        proof {
            lemma_plan_fits(plan.shard_seq(), s1@.len() as int, s2@.len() as int, plan.chunk());
        }
        let r = plan.map_read(s1, s2, f);
        proof {
            let fl = s1@.len() as int;
            assert(s1@ =~= self@.subrange(0, fl));
            assert(s2@ =~= self@.subrange(fl, self@.len() as int));
            assert(plan_of(plan.shard_seq(), fl, s2@.len() as int, plan.chunk()));
            assert(partitioned_read(f, s1@, s2@, clamped_chunk(chunk_len), r@));
            assert(partitioned_read(
                f,
                self@.subrange(0, fl),
                self@.subrange(fl, self@.len() as int),
                clamped_chunk(chunk_len),
                r@,
            ));
        }
        r
    }

    /// Split a permit-gated shared queue into disjoint read shards as
    /// [`partition_map_with`](Self::partition_map_with) does and run `f` on
    /// each, discarding results.
    pub fn partition_for_each_with<'a, P, F>(&'a self, permit: P, chunk_len: usize, f: F)
        where
            P: ReadPermit<'brand> + 'a,
            F: Fn(usize, &[T]),
        requires
            forall|start: usize, values: &[T]| f.requires((start, values)),
        ensures
            exists|front_len: int, r: Seq<()>|
                0 <= front_len <= self@.len() && #[trigger] partitioned_read(
                    f,
                    self@.subrange(0, front_len),
                    self@.subrange(front_len, self@.len() as int),
                    clamped_chunk(chunk_len),
                    r,
                ),
    {
        let r = self.partition_map_with(permit, chunk_len, f);
        let ghost fl = choose|front_len: int|
            0 <= front_len <= self@.len() && #[trigger] partitioned_read(
                f,
                self@.subrange(0, front_len),
                self@.subrange(front_len, self@.len() as int),
                clamped_chunk(chunk_len),
                r@,
            );
        assert(partitioned_read(
            f,
            self@.subrange(0, fl),
            self@.subrange(fl, self@.len() as int),
            clamped_chunk(chunk_len),
            r@,
        ));
    }

    /// Split the queue into disjoint exclusive shards — logical chunks of
    /// `chunk_len` values (clamped to at least `1`), a chunk that crosses the
    /// ring-buffer wrap exposed as two shards with their logical starts — and
    /// hand each to `f`, returning one result per shard in partition order.
    pub fn partition_map_mut_with<R, F>(&mut self, chunk_len: usize, f: F) -> (r: Vec<R>)
        where
            F: Fn(usize, &mut [T]) -> R,
        requires
            forall|start: usize, values: &mut [T]| f.requires((start, values)),
        ensures
            exists|front_len: int|
                0 <= front_len <= old(self)@.len() && #[trigger] partitioned_write(
                    f,
                    old(self)@.subrange(0, front_len),
                    old(self)@.subrange(front_len, old(self)@.len() as int),
                    clamped_chunk(chunk_len),
                    r@,
                ),
            exists|front_len: int, s: Seq<DequeShard>, posts: Seq<Seq<T>>|
                #![trigger plan_of(s, front_len, old(self)@.len() - front_len, clamped_chunk(chunk_len)), flatten(posts)]
                {
                    &&& 0 <= front_len <= old(self)@.len()
                    &&& plan_of(s, front_len, old(self)@.len() - front_len, clamped_chunk(chunk_len))
                    &&& r@.len() == s.len()
                    &&& posts.len() == s.len()
                    &&& final(self)@ == flatten(posts)
                    &&& final(self)@.len() == old(self)@.len()
                    &&& forall|i: int|
                        #[trigger] index_in(i, posts.len() as int) ==> exists|values: &mut [T]|
                            #![trigger f.ensures((s[i].start, values), r@[i])]
                            {
                                &&& values@ == shard_values(
                                    s[i],
                                    old(self)@.subrange(0, front_len),
                                    old(self)@.subrange(front_len, old(self)@.len() as int),
                                )
                                &&& final(values)@ == posts[i]
                                &&& final(values)@.len() == values@.len()
                                &&& f.ensures((s[i].start, values), r@[i])
                            }
                },
    {
        let total = self.values.len();
        let (s1, s2) = deque_as_mut_slices(&mut self.values);
        proof {
            assert(s1@.len() + s2@.len() == total);
        }
        let plan = DequeShardPlan::from_lengths(s1.len(), s2.len(), chunk_len);
        let ghost fl = s1@.len() as int;
        let ghost front = s1@;
        let ghost back = s2@;
        let ghost fin = final(s1)@ + final(s2)@;
        let r = plan.map_mut(s1, s2, f);
        proof {
            assert(plan_of(plan.shard_seq(), fl, total - fl, plan.chunk()));
            assert(partitioned_write(f, front, back, clamped_chunk(chunk_len), r@));
            assert(front =~= old(self)@.subrange(0, fl));
            assert(back =~= old(self)@.subrange(fl, old(self)@.len() as int));
            assert(partitioned_write(
                f,
                old(self)@.subrange(0, fl),
                old(self)@.subrange(fl, old(self)@.len() as int),
                clamped_chunk(chunk_len),
                r@,
            ));
            let sh = plan.shard_seq();
            let posts = choose|posts: Seq<Seq<T>>|
                #![trigger flatten(posts)]
                {
                    &&& posts.len() == r@.len()
                    &&& fin == flatten(posts)
                    &&& forall|i: int|
                        #[trigger] index_in(i, posts.len() as int) ==> exists|values: &mut [T]|
                            #![trigger f.ensures((sh[i].start, values), r@[i])]
                            {
                                &&& values@ == shard_values(sh[i], front, back)
                                &&& final(values)@ == posts[i]
                                &&& final(values)@.len() == values@.len()
                                &&& f.ensures((sh[i].start, values), r@[i])
                            }
                };
            assert(fin == flatten(posts));
            assert(fin.len() == old(self)@.len());
            assert(plan_of(sh, fl, old(self)@.len() - fl, clamped_chunk(chunk_len)));
        }
        r
    }

    /// Split the queue into disjoint exclusive shards as
    /// [`partition_map_mut_with`](Self::partition_map_mut_with) does and hand
    /// each to `f`, discarding results.
    pub fn partition_for_each_mut_with<F>(&mut self, chunk_len: usize, f: F)
        where
            F: Fn(usize, &mut [T]),
        requires
            forall|start: usize, values: &mut [T]| f.requires((start, values)),
        ensures
            exists|front_len: int, r: Seq<()>|
                0 <= front_len <= old(self)@.len() && #[trigger] partitioned_write(
                    f,
                    old(self)@.subrange(0, front_len),
                    old(self)@.subrange(front_len, old(self)@.len() as int),
                    clamped_chunk(chunk_len),
                    r,
                ),
            exists|front_len: int, s: Seq<DequeShard>, posts: Seq<Seq<T>>|
                #![trigger plan_of(s, front_len, old(self)@.len() - front_len, clamped_chunk(chunk_len)), flatten(posts)]
                {
                    &&& 0 <= front_len <= old(self)@.len()
                    &&& plan_of(s, front_len, old(self)@.len() - front_len, clamped_chunk(chunk_len))
                    &&& posts.len() == s.len()
                    &&& final(self)@ == flatten(posts)
                    &&& final(self)@.len() == old(self)@.len()
                    &&& forall|i: int|
                        #[trigger] index_in(i, posts.len() as int) ==> exists|values: &mut [T]|
                            #![trigger f.ensures((s[i].start, values), ())]
                            {
                                &&& values@ == shard_values(
                                    s[i],
                                    old(self)@.subrange(0, front_len),
                                    old(self)@.subrange(front_len, old(self)@.len() as int),
                                )
                                &&& final(values)@ == posts[i]
                                &&& final(values)@.len() == values@.len()
                                &&& f.ensures((s[i].start, values), ())
                            }
                },
    {
        let ghost old_values = self@;
        let ghost fin = final(self)@;
        let r = self.partition_map_mut_with(chunk_len, f);
        let ghost fl = choose|front_len: int|
            0 <= front_len <= old(self)@.len() && #[trigger] partitioned_write(
                f,
                old(self)@.subrange(0, front_len),
                old(self)@.subrange(front_len, old(self)@.len() as int),
                clamped_chunk(chunk_len),
                r@,
            );
        assert(partitioned_write(
            f,
            old(self)@.subrange(0, fl),
            old(self)@.subrange(fl, old(self)@.len() as int),
            clamped_chunk(chunk_len),
            r@,
        ));
        proof {
            let (fl2, sh, posts) = choose|front_len: int, s: Seq<DequeShard>, posts: Seq<Seq<T>>|
                #![trigger plan_of(s, front_len, old_values.len() - front_len, clamped_chunk(chunk_len)), flatten(posts)]
                {
                    &&& 0 <= front_len <= old_values.len()
                    &&& plan_of(s, front_len, old_values.len() - front_len, clamped_chunk(chunk_len))
                    &&& r@.len() == s.len()
                    &&& posts.len() == s.len()
                    &&& fin == flatten(posts)
                    &&& fin.len() == old_values.len()
                    &&& forall|i: int|
                        #[trigger] index_in(i, posts.len() as int) ==> exists|values: &mut [T]|
                            #![trigger f.ensures((s[i].start, values), r@[i])]
                            {
                                &&& values@ == shard_values(
                                    s[i],
                                    old_values.subrange(0, front_len),
                                    old_values.subrange(front_len, old_values.len() as int),
                                )
                                &&& final(values)@ == posts[i]
                                &&& final(values)@.len() == values@.len()
                                &&& f.ensures((s[i].start, values), r@[i])
                            }
                };
            assert forall|i: int|
                #[trigger] index_in(i, posts.len() as int) implies exists|values: &mut [T]|
                    #![trigger f.ensures((sh[i].start, values), ())]
                    {
                        &&& values@ == shard_values(
                            sh[i],
                            old_values.subrange(0, fl2),
                            old_values.subrange(fl2, old_values.len() as int),
                        )
                        &&& final(values)@ == posts[i]
                        &&& final(values)@.len() == values@.len()
                        &&& f.ensures((sh[i].start, values), ())
                    } by {
                assert(r@[i] == ());
            }
            assert(fin == flatten(posts));
            assert(plan_of(sh, fl2, old_values.len() - fl2, clamped_chunk(chunk_len)));
        }
    }
}

} // verus!
