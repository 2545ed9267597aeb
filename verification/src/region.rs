//! Region partitioning: disjoint shards of a branded region.
use vstd::prelude::*;

mod chunks;
mod par_chunks;
pub mod partition;
mod shard;

pub use chunks::{law_next_counts_down, ShardChunks};
pub use par_chunks::ParChunks;
pub use partition::{law_front_cuts_follow_parts, law_parts_disjoint, law_parts_tile};
pub use shard::{cell_values, WriterShard};
