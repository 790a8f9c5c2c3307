[package]
name = "trellis_observatory"
version = "0.1.0"
edition = "2021"
publish = false

[dependencies]
serde = { version = "=1.0.229", features = ["derive"] }
serde_json = "=1.0.154"
wasm-bindgen = "=0.2.130"
proptest = { version = "1", default-features = false, features = ["std"] }
