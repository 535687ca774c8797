[package]
name = "override_cache"
version = "0.1.0"
edition = "2021"
publish = false

[dependencies]
fastcrypto = "0.1.11"
serde_json = "1"
anyhow = "1"
tracing = "0.1"
tokio = { version = "1", features = ["net", "io-util", "rt-multi-thread", "macros", "time", "sync"] }
interprocess = { version = "2", features = ["tokio"] }
