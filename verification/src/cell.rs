//! Branded cells, their borrow guards and retain policies.
use vstd::prelude::*;

mod cow;
mod melinoe_cell;
mod pair;
mod reference;

pub use cow::{cow_if, cow_of, cow_with, Borrowed, CowPolicy, RetainDecision, Retained};
pub use melinoe_cell::MelinoeCell;
pub use pair::MelinoeCell2;
pub use reference::{MelinoeMut, MelinoeRef};
