[package]
name = "ezjww"
version = "0.1.0"
edition = "2021"
publish = false

[dependencies]
encoding_rs = "0.8"
pyo3 = "0.22"
