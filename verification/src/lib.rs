//! Percolator: a perpetual-futures risk engine.
pub mod num;
pub mod wide_math;
pub mod engine;
pub mod v14;
pub mod v14_market;
