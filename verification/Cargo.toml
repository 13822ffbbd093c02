[package]
name = "topdown_racer"
version = "0.1.0"
edition = "2021"
publish = false

[dependencies]
glam = "0.27"
serde = { version = "1", features = ["derive"] }
serde_json = "1"
