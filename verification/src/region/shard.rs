//! [`WriterShard`] — a move-only write capability over a disjoint partition.
use vstd::prelude::*;

use super::chunks::ShardChunks;
use super::par_chunks::ParChunks;
use crate::cell::MelinoeCell;
use crate::slices::whole_slice_mut;

verus! {

/// The values held by a sequence of cells.
pub open spec fn cell_values<'brand, T>(cells: Seq<MelinoeCell<'brand, T>>) -> Seq<T> {
    cells.map_values(|c: MelinoeCell<'brand, T>| c@)
}

/// A move-only write capability over a disjoint partition of a branded region.
///
/// Construct one over a whole region with [`new`](Self::new), then subdivide
/// with [`split_at`](Self::split_at) / [`chunks`](Self::chunks) to obtain
/// disjoint shards. Reads need `&self`; writes need `&mut self`.
pub struct WriterShard<'a, 'brand, T> {
    cells: &'a mut [MelinoeCell<'brand, T>],
}

impl<'a, 'brand, T> WriterShard<'a, 'brand, T> {
    /// The cells of this partition.
    pub closed spec fn cells(&self) -> Seq<MelinoeCell<'brand, T>> {
        self.cells@
    }

    /// The exclusive borrow of the region the shard holds; what the region's
    /// cells hold when the borrow ends is `final(self.region())@`.
    pub closed spec fn region(self) -> &'a mut [MelinoeCell<'brand, T>] {
        self.cells
    }

    /// Once a shard is done with, the region's cells hold what the shard
    /// last held: writes made through it have landed in the region.
    pub proof fn lemma_done(self)
        requires
            has_resolved(self),
        ensures
            final(self.region())@ == self.cells(),
    {
    }

    /// The values held by this partition's cells.
    pub open spec fn values(&self) -> Seq<T> {
        cell_values(self.cells())
    }

    /// Wrap an exclusive borrow of a contiguous region as a single shard.
    pub fn new(cells: &'a mut [MelinoeCell<'brand, T>]) -> (r: Self)
        ensures
            r.cells() == old(cells)@,
            final(r.region())@ == final(cells)@,
            final(r.region())@.len() == r.cells().len(),
            final(cells)@.len() == old(cells)@.len(),
    {
        WriterShard { cells: whole_slice_mut(cells) }
    }

    /// Number of cells in this partition.
    pub fn len(&self) -> (r: usize)
        ensures
            r == self.cells().len(),
    {
        self.cells.len()
    }

    /// Whether this partition is empty.
    pub fn is_empty(&self) -> (r: bool)
        ensures
            r == (self.cells().len() == 0),
    {
        self.cells.len() == 0
    }

    /// Shared read of the `index`-th cell (needs `&self`).
    pub fn get(&self, index: usize) -> (r: Option<&T>)
        ensures
            index < self.cells().len() ==> r.is_some() && *r.unwrap() == self.values()[index as int],
            index >= self.cells().len() ==> r.is_none(),
    {
        if index < self.cells.len() {
            Some(self.cells[index].value_ref())
        } else {
            None
        }
    }

    /// Exclusive access to the `index`-th cell (needs `&mut self`).
    pub fn get_mut(&mut self, index: usize) -> (r: Option<&mut T>)
        ensures
            index < old(self).cells().len() ==> {
                &&& r.is_some()
                &&& *r.unwrap() == old(self).values()[index as int]
                &&& final(self).values() == old(self).values().update(
                    index as int,
                    *final(r.unwrap()),
                )
            },
            index >= old(self).cells().len() ==> r.is_none() && final(self).cells() == old(
                self,
            ).cells(),
            final(final(self).region())@ == final(old(self).region())@,
    {
        if index < self.cells.len() {
            Some(self.cells[index].get_mut())
        } else {
            None
        }
    }

    /// Shared reads of every cell of the partition, in order (needs `&self`).
    pub fn iter(&self) -> (r: Vec<&T>)
        ensures
            r@.len() == self.cells().len(),
            forall|i: int| 0 <= i < r@.len() ==> *#[trigger] r@[i] == self.values()[i],
    {
        let mut out: Vec<&T> = Vec::new();
        let mut i: usize = 0;
        while i < self.cells.len()
            invariant
                i <= self.cells@.len(),
                out@.len() == i,
                forall|j: int| 0 <= j < i ==> *#[trigger] out@[j] == self.values()[j],
            decreases self.cells@.len() - i,
        {
            out.push(self.cells[i].value_ref());
            i = i + 1;
        }
        out
    }

    /// Exclusive references to every cell of the partition, in order (needs
    /// `&mut self`).
    pub fn iter_mut(&mut self) -> (r: Vec<&mut T>)
        ensures
            r@.len() == old(self).cells().len(),
            forall|i: int| 0 <= i < r@.len() ==> *#[trigger] r@[i] == old(self).values()[i],
            final(self).values() == Seq::new(r@.len(), |i: int| *final(r@[i])),
            final(final(self).region())@ == final(old(self).region())@,
    {
        let ghost fin = final(self).cells();
        let mut out: Vec<&mut T> = Vec::new();
        let mut rest: &mut [MelinoeCell<'brand, T>] = &mut *self.cells;
        let ghost start = rest@;
        assert(cell_values(fin) =~= Seq::new(0, |j: int| *final(out@[j])) + cell_values(final(rest)@));
        while rest.len() > 0
            invariant
                out@.len() + rest@.len() == start.len(),
                rest@ == start.subrange(out@.len() as int, start.len() as int),
                forall|j: int| 0 <= j < out@.len() ==> *#[trigger] out@[j] == cell_values(start)[j],
                cell_values(fin) == Seq::new(out@.len(), |j: int| *final(out@[j])) + cell_values(
                    final(rest)@,
                ),
            decreases rest@.len(),
        {
            let ghost out_before = out@;
            let ghost fin_rest = final(rest)@;
            let (head, tail) = rest.split_at_mut(1);
            let ghost fin_head = final(head)@;
            assert(fin_rest == fin_head + final(tail)@);
            match head.first_mut() {
                Some(c) => {
                    let ghost fin_c = *final(c);
                    assert(fin_head == seq![fin_c]);
                    let m = c.get_mut();
                    assert(fin_c@ == *final(m));
                    out.push(m);
                    assert(cell_values(fin) =~= Seq::new(out@.len(), |j: int| *final(out@[j]))
                        + cell_values(final(tail)@));
                },
                None => {},
            }
            rest = tail;
        }
        assert(cell_values(final(rest)@) =~= Seq::<T>::empty());
        assert(cell_values(fin) =~= Seq::new(out@.len(), |j: int| *final(out@[j])));
        out
    }

    /// Divide this shard into two disjoint shards at `mid`, consuming `self`.
    pub fn split_at(self, mid: usize) -> (r: (Self, Self))
        requires
            mid <= self.cells().len(),
        ensures
            r.0.cells() == self.cells().subrange(0, mid as int),
            r.1.cells() == self.cells().subrange(mid as int, self.cells().len() as int),
            final(self.region())@ == final(r.0.region())@ + final(r.1.region())@,
            final(r.0.region())@.len() == r.0.cells().len(),
            final(r.1.region())@.len() == r.1.cells().len(),
    {
        let (left, right) = self.cells.split_at_mut(mid);
        (WriterShard { cells: whole_slice_mut(left) }, WriterShard { cells: whole_slice_mut(right) })
    }

    /// Consume the shard into a sequence of disjoint shards of `chunk_size`
    /// cells each (the final shard may be shorter); `chunk_size` is clamped to
    /// at least `1`.
    pub fn chunks(self, chunk_size: usize) -> (r: ShardChunks<'a, 'brand, T>)
        ensures
            r.remaining() == self.cells(),
            r.chunk() == if chunk_size == 0 { 1 } else { chunk_size as int },
    {
        let chunk = if chunk_size == 0 { 1 } else { chunk_size };
        ShardChunks::new(self.cells, chunk)
    }

    /// Consume the shard into an indexed view of its `chunk_size`-cell
    /// partitions; `chunk_size` is clamped to at least `1`.
    pub fn par_chunks(self, chunk_size: usize) -> (r: ParChunks<'a, 'brand, T>)
        ensures
            r.region_len() == self.cells().len(),
            r.cells() == self.cells(),
            final(r.region())@ == final(self.region())@,
            r.chunk() == if chunk_size == 0 { 1 } else { chunk_size as int },
    {
        ParChunks::new(self.cells, chunk_size)
    }

    /// Borrow the underlying cells immutably (e.g. for token-mediated reads).
    pub fn as_cells(&self) -> (r: &[MelinoeCell<'brand, T>])
        ensures
            r@ == self.cells(),
    {
        self.cells
    }

    /// Recover the underlying exclusive slice, consuming the shard.
    pub fn into_cells(self) -> (r: &'a mut [MelinoeCell<'brand, T>])
        ensures
            r@ == self.cells(),
            final(r)@ == final(self.region())@,
            final(r)@.len() == r@.len(),
    {
        whole_slice_mut(self.cells)
    }
}

} // verus!
