[package]
name = "chat_hub"
version = "0.1.0"
edition = "2021"
publish = false

[dependencies]
futures = "=0.3.34"
async-std = "=1.13.2"
async-tungstenite = { version = "=0.13.1", features = ["async-std-runtime"] }
bevy = { version = "=0.5.0", default-features = false }
darling = "=0.10.2"
