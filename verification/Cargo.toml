[package]
name = "infrastore"
version = "0.1.0"
edition = "2021"
publish = false

[dependencies]
arrow = { version = "=60.1.0", default-features = false }
chrono = { version = "=0.4.45", default-features = false, features = ["alloc", "std"] }
parquet = { version = "=60.1.0", default-features = false, features = ["arrow", "zstd"] }
serde = { version = "1", features = ["derive"] }
serde_json = { version = "=1.0.154", features = ["float_roundtrip"] }
tracing-subscriber = { version = "0.3", features = ["env-filter"] }
