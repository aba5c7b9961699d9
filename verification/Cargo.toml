[package]
name = "openbitfun_core"
version = "0.1.0"
edition = "2021"
publish = false

[dependencies]
anyhow = "1"
async-trait = "0.1"
dunce = "1"
futures = "0.3"
hex = "=0.4.3"
log = "0.4"
serde = { version = "1", features = ["derive"] }
serde_json = "1"
sha2 = "=0.10.9"
tokio = { version = "1", features = ["fs", "io-util", "rt", "sync", "time", "macros"] }
uuid = { version = "=1.29.0", features = ["v4"] }
