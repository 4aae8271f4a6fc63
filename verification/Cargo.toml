[package]
name = "ccs_proxy"
version = "0.1.0"
edition = "2021"
publish = false

[dependencies]
brotli = "7"
flate2 = "1"
zstd = "0.13"
serde_json = { version = "1", features = ["preserve_order"] }
http = "1"
bytes = "1"
axum = "0.7"
futures = "0.3"
async-stream = "0.3"
tokio = { version = "1", features = ["full"] }
reqwest = { version = "0.12", default-features = false, features = ["json", "stream"] }
chrono = "0.4"
log = "0.4"
