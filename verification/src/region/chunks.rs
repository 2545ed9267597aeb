//! [`ShardChunks`] — the disjoint shards cut front-to-back off a region.
use vstd::prelude::*;

use super::partition::{lemma_count_after_first_part, lemma_count_closed_form, lemma_count_empty, partition_count};
use super::shard::WriterShard;
use crate::cell::MelinoeCell;

verus! {

/// Sequence of disjoint [`WriterShard`]s produced by
/// [`WriterShard::chunks`].
///
/// Each yielded shard owns a non-overlapping sub-slice carved off the front of
/// the remaining region, so all yielded shards are mutually disjoint.
pub struct ShardChunks<'a, 'brand, T> {
    rest: Option<&'a mut [MelinoeCell<'brand, T>]>,
    chunk: usize,
}

impl<'a, 'brand, T> ShardChunks<'a, 'brand, T> {
    /// The part size is at least one cell.
    #[verifier::type_invariant]
    spec fn wf(&self) -> bool {
        self.chunk >= 1
    }

    /// The cells not yet handed out.
    pub closed spec fn remaining(&self) -> Seq<MelinoeCell<'brand, T>> {
        match self.rest {
            Some(s) => s@,
            None => Seq::empty(),
        }
    }

    /// Cells per shard (the last shard may be shorter).
    pub closed spec fn chunk(&self) -> int {
        self.chunk as int
    }

    pub(crate) fn new(cells: &'a mut [MelinoeCell<'brand, T>], chunk: usize) -> (r: Self)
        requires
            chunk >= 1,
        ensures
            r.remaining() == old(cells)@,
            r.chunk() == chunk,
    {
        ShardChunks { rest: Some(cells), chunk }
    }

    /// Take the cells not yet handed out, leaving none.
    fn take_rest(&mut self) -> (r: Option<&'a mut [MelinoeCell<'brand, T>]>)
        ensures
            r == old(self).rest,
            final(self).rest is None,
            final(self).chunk == old(self).chunk,
    {
        proof {
            use_type_invariant(&*self);
        }
        let mut taken: Option<&'a mut [MelinoeCell<'brand, T>]> = None;
        core::mem::swap(&mut taken, &mut self.rest);
        taken
    }

    /// Hand out the next shard: the first `min(chunk, remaining)` cells.
    pub fn next(&mut self) -> (r: Option<WriterShard<'a, 'brand, T>>)
        ensures
            final(self).chunk() == old(self).chunk(),
            old(self).remaining().len() == 0 ==> r.is_none() && final(self).remaining()
                =~= Seq::<MelinoeCell<'brand, T>>::empty(),
            old(self).remaining().len() > 0 ==> {
                let n = old(self).remaining().len() as int;
                let m = if old(self).chunk() < n { old(self).chunk() } else { n };
                &&& r.is_some()
                &&& r.unwrap().cells() == old(self).remaining().subrange(0, m)
                &&& final(self).remaining() == old(self).remaining().subrange(m, n)
            },
    {
        proof {
            use_type_invariant(&*self);
        }
        let slice = match self.take_rest() {
            Some(s) => s,
            None => {
                return None;
            },
        };
        if slice.len() == 0 {
            return None;
        }
        let mid = if self.chunk < slice.len() { self.chunk } else { slice.len() };
        let (head, tail) = slice.split_at_mut(mid);
        self.rest = Some(tail);
        Some(WriterShard::new(head))
    }

    /// Exact remaining shard count, as `(lower, Some(upper))` with both equal
    /// to `ceil(remaining / chunk)`.
    pub fn size_hint(&self) -> (r: (usize, Option<usize>))
        ensures
            r.0 == partition_count(self.remaining().len() as int, self.chunk()),
            r.1 == Some(r.0),
    {
        let n = self.len();
        (n, Some(n))
    }

    /// Exact remaining shard count: `ceil(remaining / chunk)`.
    ///
    /// Computed as `1 + (remaining - 1) / chunk`, which cannot overflow.
    pub fn len(&self) -> (r: usize)
        ensures
            r == partition_count(self.remaining().len() as int, self.chunk()),
    {
        proof {
            use_type_invariant(self);
        }
        let remaining = match &self.rest {
            Some(s) => s.len(),
            None => 0,
        };
        if remaining == 0 {
            proof {
                lemma_count_empty(self.chunk as int);
            }
            0
        } else {
            proof {
                lemma_count_closed_form(remaining as int, self.chunk as int);
                assert((remaining - 1) / (self.chunk as int) <= remaining - 1) by (nonlinear_arith)
                    requires
                        remaining >= 1,
                        self.chunk >= 1,
                ;
            }
            1 + (remaining - 1) / self.chunk
        }
    }
}

/// Each shard handed out leaves exactly one shard fewer to come, and the
/// sequence ends exactly when the count reaches zero.
pub proof fn law_next_counts_down(remaining: int, chunk: int)
    requires
        0 <= remaining,
        0 < chunk,
    ensures
        remaining == 0 <==> partition_count(remaining, chunk) == 0,
        remaining > 0 ==> partition_count(
            remaining - (if chunk < remaining { chunk } else { remaining }),
            chunk,
        ) == partition_count(remaining, chunk) - 1,
{
    if remaining == 0 {
        lemma_count_empty(chunk);
    } else {
        lemma_count_after_first_part(remaining, chunk);
        lemma_count_closed_form(remaining, chunk);
        assert(0 <= (remaining - 1) / chunk) by (nonlinear_arith)
            requires
                remaining >= 1,
                chunk >= 1,
        ;
    }
}

} // verus!
