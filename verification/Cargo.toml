[package]
name = "pytest_affected"
version = "0.1.0"
edition = "2021"
publish = false

[dependencies]
fasthash = "=0.4.0"
hashbrown = "=0.13.2"
once_cell = "=1.21.4"
parking_lot = "=0.12.5"
pyo3 = { version = "0.20", features = ["extension-module"] }
