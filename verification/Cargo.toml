[package]
name = "bypaxdpi"
version = "0.1.0"
edition = "2021"
publish = false

[dependencies]
serde = { version = "1", features = ["derive"] }
local-ip-address = "0.6"
winapi = { version = "0.3", features = ["wininet"] }
