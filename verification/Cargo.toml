[package]
name = "chord-chart"
version = "0.1.0"
edition = "2021"
publish = false

[dependencies]
pyo3 = { version = "0.18", features = ["extension-module", "abi3-py37"] }
wasm-bindgen = "0.2"
wee_alloc = "0.4"
