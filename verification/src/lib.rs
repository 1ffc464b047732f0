#![verifier::loop_isolation(false)]

//! A small dense linear-algebra library: one-dimensional `Vector` and
//! two-dimensional `Matrix` containers over any scalar type that implements
//! the `Number` trait, with element-wise arithmetic, scalar broadcasts,
//! matrix products, and structural operations (transpose, trace, reshape,
//! identity/zero/random construction).

pub mod common;
pub mod matrix;
pub mod vector;
