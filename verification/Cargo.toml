[package]
name = "pong_core"
version = "0.1.0"
edition = "2021"
publish = false

[dependencies]
amethyst = { version = "=0.15.3", default-features = false, features = ["audio", "renderer", "vulkan"] }
serde = { version = "=1.0.229", features = ["derive"] }
serde_json = "=1.0.154"
