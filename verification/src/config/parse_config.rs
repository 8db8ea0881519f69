//! The sections of the configuration file.
//!
//! The type `C` is that of a coordinate (a latitude or a longitude). The library
//! carries coordinates and never computes with them.

use vstd::prelude::*;

verus! {

/// The configuration file: the section of the store and the section of the server.
#[derive(Debug)]
pub struct ServerConfig<C> {
    pub clickhouse: Option<Clickhouse>,
    pub server: Option<Server<C>>,
}

/// The section of the server: every value may be missing.
#[derive(Debug)]
pub struct Server<C> {
    pub server_id: Option<String>,
    pub hostname: Option<String>,
    pub label: Option<String>,
    pub interface_filter: Vec<Option<String>>,
    pub lat: Option<C>,
    pub lng: Option<C>,
    pub city: Option<String>,
    pub country: Option<String>,
    pub priority: Option<u8>,
    pub center: Option<bool>,
    pub logs_path: Option<String>,
}

/// The section of the store: where it is and how to sign in.
#[derive(Debug)]
pub struct Clickhouse {
    pub hostname: Option<String>,
    pub user: Option<String>,
    pub password: Option<String>,
    pub db: Option<String>,
    pub port: Option<u32>,
}

} // verus!
