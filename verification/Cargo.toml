[package]
name = "gain_core"
version = "0.1.0"
edition = "2021"
publish = false

[dependencies]
ebur128 = "0.1"
serde = { version = "1", features = ["derive"] }
symphonia = { version = "0.5", features = ["aiff"] }
