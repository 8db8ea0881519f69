//! Reconciliation and sampling rules of a per-host network telemetry agent.
//!
//! The agent registers its host in a central store, keeps the store's list of the
//! host's interfaces and addresses equal to what the kernel reports, and writes the
//! per-interval growth of each interface's counters. This crate holds the rules of
//! that work as functions from plain values to plain values, each with a contract;
//! the program around it performs the kernel and database requests.

pub mod config;
pub mod db;
pub mod interface;
pub mod net;
pub mod netlink;
pub mod server;
pub mod views;
