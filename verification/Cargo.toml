[package]
name = "netagent"
version = "0.1.0"
edition = "2021"
publish = false

[dependencies]
clap = { version = "4", features = ["derive"] }
clickhouse = "0.13"
config = { version = "0.14", default-features = false, features = ["toml"] }
dotenv = "0.15"
futures = "0.3"
futures-util = "0.3"
hex = "0.4"
ipnet = "2"
log = "0.4"
log4rs = "1"
netlink-packet-route = "0.19"
rand = "0.9"
regex = "1"
rtnetlink = "0.14"
serde = { version = "1", features = ["derive"] }
tokio = { version = "1", features = ["full"] }
toml = "0.8"
