[package]
name = "neonet_core"
version = "0.1.0"
edition = "2021"
publish = false

[dependencies]
wasmer = "=6.1.0"
chrono = "=0.4.45"
serde = { version = "=1.0.229", features = ["derive"] }
serde_json = "=1.0.151"
tokio = { version = "=1.53.2", features = ["rt-multi-thread", "macros"] }
warp = { version = "=0.4.3", features = ["server"] }
