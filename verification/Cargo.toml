[package]
name = "fedimint-rocksdb"
version = "0.1.0"
edition = "2021"
publish = false

[dependencies]
anyhow = "=1.0.104"
async-trait = "=0.1.92"
bon = "=3.10.3"
futures = "=0.3.34"
rocksdb = "=0.24.0"
tokio = { version = "=1.54.1", features = ["rt-multi-thread"] }
tracing = "=0.1.44"
