//! Branded collections and shard planning for them.
use vstd::prelude::*;

pub mod branded_deque;
pub mod branded_vec;
pub mod deque_plan;

pub use branded_deque::{BrandedVecDeque, BrandedVecDequeDrain};
pub use branded_vec::{
    kept_values, law_drain_loses_nothing, law_split_off_then_append_restores,
    law_swap_twice_restores, with_generated, BrandedDrain, BrandedVec,
};
pub use deque_plan::{
    flatten, index_in, law_plan_covers_in_order, law_plan_is_unique, law_plan_pieces_pointwise,
    law_plan_unwrapped_is_chunks,
    plan_of, plan_values, DequeSegment, DequeShard, DequeShardPlan,
};
