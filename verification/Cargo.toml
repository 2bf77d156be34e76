[package]
name = "perry"
version = "0.1.0"
edition = "2021"
publish = false

[dependencies]
wasm-encoder = "=0.263.0"
libc = "=0.2.191"

[dev-dependencies]
wasmparser = { version = "=0.263.0", default-features = false, features = ["std", "validate", "features", "simd"] }
