[package]
name = "quicserve"
version = "0.1.0"
edition = "2021"
publish = false

[dependencies]
anyhow = "*"
async-trait = "*"
bytes = "*"
clap = { version = "*", features = ["derive"] }
env_logger = "*"
futures-util = "*"
h3 = "=0.0.8"
h3-quinn = { version = "=0.0.10", features = ["datagram"] }
h3-webtransport = "=0.1.2"
http = "*"
local-ip-address = "*"
log = "*"
quinn = "=0.11.12"
rand = "=0.8.8"
rustls = "*"
rustls-pemfile = "=1.0.4"
tokio = { version = "*", features = ["full"] }
