[package]
name = "spot_lite"
version = "0.1.0"
edition = "2021"
publish = false

[dependencies]
cosmwasm-std = "1.5"
cw2 = "1.1"
cw-storage-plus = "1.2"
sei-cosmwasm = "0.4"
semver = "1"
base64 = "0.13"
serde = { version = "1", default-features = false, features = ["derive"] }
schemars = "0.8"
serde_json = "1"
serde-json-wasm = "0.5"
thiserror = "1"
