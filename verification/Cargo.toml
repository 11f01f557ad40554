[package]
name = "kiva"
version = "0.1.0"
edition = "2021"
publish = false

[dependencies]
tokio = { version = "0.2", features = ["tcp", "sync", "macros", "rt-threaded", "io-util"] }
