[package]
name = "queue_bridge"
version = "0.1.0"
edition = "2021"
publish = false

[dependencies]
lmdb-queue = "*"
tokio = { version = "*", features = ["rt-multi-thread", "macros", "time"] }
tonic = "*"
prost = "*"
futures = "*"
anyhow = "*"

[dev-dependencies]
tempfile = "*"
