//! [`ParChunks`] — indexed view over the disjoint partitions of a region.
use vstd::prelude::*;

use super::partition::{lemma_count_closed_form, lemma_count_empty, part_end, part_start, partition_count};
use crate::cell::MelinoeCell;
use crate::slices::whole_slice_mut;

verus! {

/// Indexed view over the disjoint `chunk_size`-cell partitions of a branded
/// region — the indexed counterpart to the sequential
/// [`ShardChunks`](super::ShardChunks).
pub struct ParChunks<'a, 'brand, T> {
    cells: &'a mut [MelinoeCell<'brand, T>],
    chunk: usize,
}

impl<'a, 'brand, T> ParChunks<'a, 'brand, T> {
    /// The part size is at least one cell.
    #[verifier::type_invariant]
    closed spec fn wf(&self) -> bool {
        self.chunk >= 1
    }

    /// Number of cells in the region.
    pub closed spec fn region_len(&self) -> int {
        self.cells@.len() as int
    }

    /// The cells of the region, as they are now.
    pub closed spec fn cells(&self) -> Seq<MelinoeCell<'brand, T>> {
        self.cells@
    }

    /// The exclusive borrow of the region; what the region's cells hold when
    /// the borrow ends is `final(self.region())@`.
    pub closed spec fn region(self) -> &'a mut [MelinoeCell<'brand, T>] {
        self.cells
    }

    /// Cells per partition.
    pub closed spec fn chunk(&self) -> int {
        self.chunk as int
    }

    /// Build an indexed partition view over `cells`; `chunk_size` is clamped
    /// to at least `1`.
    pub fn new(cells: &'a mut [MelinoeCell<'brand, T>], chunk_size: usize) -> (r: Self)
        ensures
            r.region_len() == old(cells)@.len(),
            r.cells() == old(cells)@,
            final(r.region())@ == final(cells)@,
            final(r.region())@.len() == r.region_len(),
            final(cells)@.len() == old(cells)@.len(),
            r.chunk() == if chunk_size == 0 { 1 } else { chunk_size as int },
    {
        let chunk = if chunk_size == 0 { 1 } else { chunk_size };
        ParChunks { cells: whole_slice_mut(cells), chunk }
    }

    /// Number of disjoint partitions: `ceil(region_len / chunk_size)`, or `0`
    /// when the region is empty.
    ///
    /// Computed as `1 + (len - 1) / chunk`, which cannot overflow.
    pub fn len(&self) -> (r: usize)
        ensures
            r == partition_count(self.region_len(), self.chunk()),
    {
        proof {
            use_type_invariant(self);
        }
        let len = self.cells.len();
        if len == 0 {
            proof {
                lemma_count_empty(self.chunk as int);
            }
            0
        } else {
            proof {
                lemma_count_closed_form(len as int, self.chunk as int);
                assert((len - 1) / (self.chunk as int) <= len - 1) by (nonlinear_arith)
                    requires
                        len >= 1,
                        self.chunk >= 1,
                ;
            }
            1 + (len - 1) / self.chunk
        }
    }

    /// Whether the region is empty (no partitions).
    pub fn is_empty(&self) -> (r: bool)
        ensures
            r == (self.region_len() == 0),
    {
        self.cells.len() == 0
    }

    /// The `[start, end)` cell range of partition `index`, clamped to the
    /// region length (empty for an index past the last partition).
    pub fn range(&self, index: usize) -> (r: (usize, usize))
        requires
            index * self.chunk() + self.chunk() <= usize::MAX,
        ensures
            r.0 == part_start(self.region_len(), self.chunk(), index as int),
            r.1 == part_end(self.region_len(), self.chunk(), index as int),
    {
        let start = index * self.chunk;
        let end = start + self.chunk;
        let len = self.cells.len();
        let end = if end < len { end } else { len };
        let start = if start < len { start } else { len };
        (start, end)
    }
}

} // verus!
