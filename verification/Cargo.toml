[package]
name = "finite_wasm"
version = "0.1.0"
edition = "2021"
publish = false

[dependencies]
wasmparser = "0.99"
wasm-encoder = "0.22"
thiserror = "1"
