[package]
name = "osc_bridge"
version = "0.1.0"
edition = "2021"
publish = false

[dependencies]
serde_json = "1"
serde = { version = "1", features = ["derive"] }
toml = "*"
tokio = { version = "1", features = ["full"] }
warp = { version = "0.3", features = ["tls"] }
futures = "0.3"
async-osc = "*"
local-ip-address = "*"
openssl = "*"
rcgen = "0.11"
