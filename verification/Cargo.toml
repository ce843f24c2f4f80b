[package]
name = "merk"
version = "0.1.0"
edition = "2021"
publish = false

[dependencies]
blake2 = "=0.10.6"
wasm-bindgen = "=0.2.92"
