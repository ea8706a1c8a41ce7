[package]
name = "fb_web_server"
version = "0.1.0"
edition = "2021"
publish = false

[dependencies]
rust-crypto = "0.2"
base64 = "0.13"
percent-encoding = "2"
rand = "0.8"
serde_json = "1"
