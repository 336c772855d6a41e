//! A second-degree factorization machine for regression over fixed-point
//! scalars: a bias, linear weights, and low-rank pairwise factor vectors,
//! trained by per-example stochastic gradient descent.
//!
//! Scalars are fixed-point numbers: an `i64` raw value counts units of
//! `1 / SCALE`. All arithmetic on them is saturating and exactly specified.

pub mod fx;
pub mod linalg;
pub mod fm;
pub mod algebra;
