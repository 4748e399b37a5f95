[package]
name = "rviewer"
version = "0.1.0"
edition = "2021"
publish = false

[dependencies]
druid = "0.8"
serde = { version = "1", features = ["derive"] }
serde_json = "1"
subprocess = "0.2"
svg = "0.13"
threadpool = "1"
