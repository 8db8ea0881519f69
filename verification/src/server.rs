//! The host's own record in the store.

pub mod server;
