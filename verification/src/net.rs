//! Address arithmetic.

pub mod address;
