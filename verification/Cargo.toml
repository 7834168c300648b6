[package]
name = "scene_builder"
version = "0.1.0"
edition = "2021"
publish = false

[dependencies]
nanoid = "0.4"
log = "0.4"
serde = { version = "1", features = ["derive"] }
serde_json = "1"
serde_yaml = "0.9"
