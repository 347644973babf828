[package]
name = "dtrace_provider"
version = "0.1.0"
edition = "2021"
publish = false

[dependencies]
usdt = "*"
napi = "*"
napi-derive = "*"
serde = "*"
serde_json = "*"
