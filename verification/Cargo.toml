[package]
name = "wiz-rs"
version = "0.1.0"
edition = "2021"
publish = false

[dependencies]
async-stream = "=0.3.6"
axum = "=0.6.20"
bincode = "=1.3.3"
bytemuck = "=1.25.2"
colored = "=2.2.0"
dirs = "=5.0.1"
env_logger = "=0.10.2"
flume = "=0.10.14"
futures-core = "=0.3.34"
log = "=0.4.34"
partial_sort = "=0.2.0"
rand = "=0.8.8"
rustyline = "=12.0.0"
serde = { version = "=1.0.229", features = ["derive"] }
serde_json = "=1.0.154"
sha2 = "=0.10.9"
spinners = "=4.2.0"
thiserror = "=1.0.69"
tokenizers = { version = "=0.13.3", default-features = false, features = ["unstable_wasm"] }
tokio = { version = "=1.54.1", features = ["full"] }
