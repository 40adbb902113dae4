[package]
name = "ws_gonzale"
version = "0.1.0"
edition = "2021"
publish = false

[dependencies]
sha1 = "0.6"
base64 = "0.13"
async-net = "1"
async-std = "1"
async-trait = "0.1"
futures = "0.3"
