[package]
name = "rearch"
version = "0.1.0"
edition = "2021"
publish = false

[dependencies]
parking_lot = "0.12"
tokio = { version = "1", features = ["rt"] }
