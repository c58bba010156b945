[package]
name = "tenzik_core"
version = "0.1.0"
edition = "2021"
publish = false

[dependencies]
anyhow = "1"
blake3 = "=1.8.7"
chrono = "=0.4.45"
clap = { version = "4", features = ["derive"] }
ed25519-dalek = { version = "=2.2.0", features = ["rand_core"] }
hex = "=0.4.3"
rand = "=0.8.8"
serde = { version = "=1.0.229", features = ["derive"] }
serde_json = "=1.0.154"
sled = "=0.34.7"
thiserror = "1"
tokio = { version = "1", features = ["full"] }
tracing = "0.1"
tracing-subscriber = { version = "0.3", features = ["env-filter"] }
wasmtime = { version = "=36.0.19", default-features = false, features = ["async", "cranelift", "runtime", "std"] }
