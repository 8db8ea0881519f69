//! Rows of the central store.

pub mod queries;
pub mod schema;
