[package]
name = "one-indexed-vec"
version = "0.1.2"
edition = "2021"
publish = false

[dependencies]
rand = "0.8"
serde = { version = "1", features = ["derive"] }
