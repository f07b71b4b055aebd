[package]
name = "rv2wasm"
version = "0.1.0"
edition = "2021"
publish = false

[dependencies]
anyhow = "=1.0.104"
wasm-encoder = "=0.41.2"

[dev-dependencies]
wasmparser = "=0.121.2"
wasmi = "*"
