//! What the agent is configured with.

pub mod config;
pub mod config_file;
pub mod get_server_info;
pub mod parse_config;
