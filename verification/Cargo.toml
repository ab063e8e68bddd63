[package]
name = "neqst_core"
version = "0.1.0"
edition = "2021"
publish = false

[dependencies]
axum = { version = "0.7", default-features = false, features = ["ws", "tokio", "http1", "query"] }
base64 = "0.22"
blake3 = "1"
chacha20poly1305 = "0.10"
ed25519-dalek = "2"
futures = "0.3"
libloading = "0.8"
rand_core = { version = "0.6", features = ["getrandom"] }
serde = { version = "1", features = ["derive"] }
serde_json = "1"
tokio = { version = "1", features = ["rt-multi-thread", "macros", "net", "fs", "sync", "signal", "time", "io-util"] }
tracing = "0.1"
tracing-subscriber = { version = "0.3", default-features = false, features = ["fmt", "env-filter", "json"] }
