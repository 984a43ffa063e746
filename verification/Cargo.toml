[package]
name = "sigma_rust"
version = "0.1.0"
edition = "2021"
publish = false

[dependencies]
base16 = "0.2"
num-bigint = "0.4"
num-traits = "0.2"
serde = { version = "1", features = ["derive"] }
serde_json = { version = "1", features = ["arbitrary_precision"] }
wasm-bindgen = "0.2"
proptest = "1"
