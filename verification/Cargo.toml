[package]
name = "wdsm"
version = "0.1.0"
edition = "2021"
publish = false

[dependencies]
anyhow = "=1.0.104"
axum = "=0.7.9"
chrono = "=0.4.45"
clap = { version = "=4.6.7", features = ["derive"] }
heck = "=0.5.0"
lazy_static = "=1.5.1"
reqwest = { version = "=0.12.28", default-features = false }
serde = { version = "=1.0.229", features = ["derive"] }
serde_json = "=1.0.154"
serde_yaml = "=0.9.34"
swc_common = "=27.0.0"
swc_ecma_ast = "=30.0.0"
swc_ecma_parser = "=47.0.0"
swc_ecma_visit = "=30.0.0"
tokio = { version = "=1.54.1", features = ["full"] }
tracing = "=0.1.44"
tracing-subscriber = "=0.3.23"
uuid = { version = "=1.29.0", features = ["v4"] }
wasmtime = "=36.0.20"
wasmtime-wasi = "=36.0.20"
wasmtime-wasi-http = "=36.0.20"
