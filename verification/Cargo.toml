[package]
name = "tskv_wal"
version = "0.1.0"
edition = "2021"
publish = false

[dependencies]
zstd = "*"
tokio = { version = "1", features = ["fs", "sync", "io-util", "rt"] }
