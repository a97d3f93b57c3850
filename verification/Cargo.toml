[package]
name = "btc_tools"
version = "0.1.0"
edition = "2021"
publish = false

[dependencies]
bitcoin = "*"
hex = "0.4"
anyhow = "1"
serde = { version = "1", features = ["derive"] }
serde_json = "1"
strum = { version = "*", features = ["derive"] }
wasm-bindgen = "0.2"
