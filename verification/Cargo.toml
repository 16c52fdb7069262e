[package]
name = "inferno_aoip"
version = "0.1.0"
edition = "2021"
publish = false

[dependencies]
hex = "0.4"
bytebuffer = "2"
serde = { version = "1", features = ["derive"] }
serde_json = "1"
toml = "0.8"
tokio = { version = "1", features = ["full"] }
tracing = "0.1"
tracing-subscriber = { version = "0.3", features = ["env-filter"] }
dirs = "5"
if-addrs = "0.13"
netdev = "0.31"
local-ip-address = "0.6"
clap = { version = "4", features = ["derive"] }
anyhow = "1"
hostname = "0.4"
platform-dirs = "0.3"
