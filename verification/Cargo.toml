[package]
name = "limon_core"
version = "0.1.0"
edition = "2021"
publish = false

[dependencies]
curl = "0.4"
fastping-rs = "*"
once_cell = "1"
serde = { version = "1", features = ["derive"] }
thiserror = "1"
time = "0.3"
tokio = { version = "1", features = ["rt", "rt-multi-thread", "sync", "macros"] }
trust-dns-resolver = "0.23"
