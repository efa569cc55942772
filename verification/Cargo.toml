[package]
name = "print3rs_core"
version = "0.1.0"
edition = "2021"
publish = false

[dependencies]
tokio = { version = "1", features = ["rt", "sync", "io-util", "time", "macros"] }
ryu = "1"
