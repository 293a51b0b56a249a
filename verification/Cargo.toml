[package]
name = "pl3xus"
version = "0.1.0"
edition = "2021"
publish = false

[dependencies]
bincode = { version = "2", features = ["serde"] }
serde = { version = "1", features = ["derive"] }
serde_json = "1"
codee = "*"
async-channel = "2"
async-net = "2"
futures-lite = "2"
