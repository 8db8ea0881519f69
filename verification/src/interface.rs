//! Interfaces: what the kernel reports of them, and what the store is told.

pub mod get_address;
pub mod get_stats;
pub mod info;
