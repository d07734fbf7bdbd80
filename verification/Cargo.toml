[package]
name = "polars_h3"
version = "0.1.0"
edition = "2021"
publish = false

[dependencies]
h3o = "*"
polars = { version = "*", default-features = false }
pyo3-polars = { version = "*", features = ["derive"] }
serde = { version = "*", features = ["derive"] }
