[package]
name = "archid_registry"
version = "0.1.0"
edition = "2021"
publish = false

[dependencies]
archid-token = "*"
cosmwasm-std = "1"
cosmwasm-storage = "1"
cw2 = "1"
cw721-updatable = "*"
cw-utils = "1"
schemars = "0.8"
serde = { version = "1", features = ["derive"] }
thiserror = "1"
