//! Branded, multi-token phantom capabilities: zero-sized brand tokens whose
//! borrows gate access to branded cells, atomics and disjoint regions.
//!
//! A [`brand_scope`] mints a unique [`ExclusiveToken`] over a fresh, invariant
//! lifetime. Values created under that brand reveal their contents only to a
//! matching [`ReadPermit`] (`&token`) or [`WritePermit`] (`&mut token`), so the
//! borrow checker's aliasing rules on that single token exclude writes from
//! reads across every value of the brand.
use vstd::prelude::*;

pub mod atomic;
pub mod cell;
mod cell_sealed;
pub mod collections;
pub mod reentrant;
pub mod region;
mod slices;
pub mod token;
mod token_sealed;

pub use atomic::{AcqRel, AtomicOrder, BrandedAtomic, Relaxed, SeqCst};
pub use cell::{
    Borrowed, CowPolicy, MelinoeCell, MelinoeCell2, MelinoeMut, MelinoeRef, RetainDecision,
    Retained,
};
pub use reentrant::{GuardedCell, ReentrancyCell, Reentered};
pub use region::WriterShard;
pub use token::{
    brand_scope, ExclusiveToken, InvariantLifetime, ReadPermit, SharedReadToken, WritePermit,
};
