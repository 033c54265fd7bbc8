[package]
name = "collab_core"
version = "0.1.0"
edition = "2021"
publish = false

[dependencies]
loro = "*"
rand = "*"
tokio = { version = "*", features = ["rt-multi-thread", "sync", "time", "macros"] }
anyhow = "*"
parking_lot = "*"
