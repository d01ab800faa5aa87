[package]
name = "minal"
version = "0.1.0"
edition = "2021"
publish = false

[dependencies]
serde = { version = "=1.0.229", features = ["derive"] }
serde_json = "=1.0.154"
toml = "=0.8.23"
thiserror = "=2.0.21"
base64 = "=0.22.1"
wasmtime = "=46.0.3"
wasmtime-wasi = "=46.0.3"
