//! A small training library: a parameter registry holding fixed-point
//! tensors, three gradient-descent update rules (plain SGD, SGD with
//! momentum, Adam), and a batching plan for iterating a dataset.
//!
//! All numeric state is kept in a signed fixed-point representation
//! (multiples of `1 / fixed::SCALE`), so every update rule has an exact
//! arithmetic contract.

pub mod batch;
pub mod fixed;
pub mod linear;
pub mod network;
pub mod tensor;
pub mod update;
