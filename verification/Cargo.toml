[package]
name = "macro_engine"
version = "0.1.0"
edition = "2021"
publish = false

[dependencies]
lazy_static = "1.4"
rdev = { version = "0.5", features = ["unstable_grab"] }
serde = { version = "1", features = ["derive"] }
serde_json = "1"
