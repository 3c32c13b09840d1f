[package]
name = "rust_py_cache"
version = "0.1.2"
edition = "2021"
publish = false

[dependencies]
dashmap = "6"
pyo3 = { version = "0.23", features = ["abi3-py38"] }
