//! The yield farm: pools that pay up to two reward tokens, accrued linearly
//! from deposit to maturity and reserved in full before a deposit is taken.

pub mod custody;
pub mod engine;
pub mod gating;
pub mod model;
pub mod types;
pub mod wellformed;
