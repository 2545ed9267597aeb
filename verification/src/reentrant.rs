//! Re-entrancy-guarded access to *ambient*, thread-confined exclusive state.
use vstd::prelude::*;

mod error;
mod flag;
mod gate;
mod guarded;
mod reset;

pub use error::Reentered;
pub use gate::ReentrancyCell;
pub use guarded::GuardedCell;
pub use reset::gate_decision;
