[package]
name = "vect_crdt_rs"
version = "0.1.0"
edition = "2021"
publish = false

[dependencies]
fractional_index = "*"
rand = "0.8"
wasm-timer = "0.2"
serde = { version = "1", features = ["derive"] }
serde_json = "1"
partially = "*"
