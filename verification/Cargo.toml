[package]
name = "bing_stt"
version = "0.1.0"
edition = "2021"
publish = false

[dependencies]
anyhow = "1"
hex = "0.4"
rand = "0.8"
serde = "1"
serde_json = "1"
time = { version = "0.3", features = ["formatting"] }
websocket = "0.27"
