[package]
name = "drf_accelerator"
version = "0.1.0"
edition = "2021"
publish = false

[dependencies]
pyo3 = { version = "=0.23.5", features = ["auto-initialize"] }
