use vstd::prelude::*;

pub mod decimal;
pub mod laws;
pub mod primitive;
pub mod stats;
pub mod text;
pub mod uncertain;

pub use decimal::{Decimal, with_digits, with_max_digits, with_min_digits};
pub use primitive::sqrt;
pub use stats::average;
pub use uncertain::{UncertainDecimal, UncertainError};

verus! {

} // verus!
