[package]
name = "rilot"
version = "0.1.0"
edition = "2021"
publish = false

[dependencies]
anyhow = "1"
chrono = "0.4"
env_logger = "0.11"
hyper = { version = "=0.14.32", features = ["full"] }
log = "0.4"
once_cell = "1"
serde = { version = "1", features = ["derive"] }
serde_json = "1"
thiserror = "1"
tokio = { version = "1", features = ["full"] }
wasmtime = "=48.0.5"
wasmtime-wasi = "=48.0.5"
wasmtime-wasi-http = "=48.0.5"
wasmtime-wasi-io = "=48.0.5"
