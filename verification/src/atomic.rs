//! [`BrandedAtomic`] — conditional atomics: plain access when exclusivity is
//! proven, atomic access only when sharing.
use vstd::prelude::*;

pub mod branded;
pub mod order;
mod sealed;
pub mod traits;

pub use branded::BrandedAtomic;
pub use order::{AcqRel, AtomicOrder, OrderingSource, Relaxed, SeqCst};
pub use traits::{Atomic, AtomicInt};
