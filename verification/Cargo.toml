[package]
name = "frio"
version = "0.1.0"
edition = "2021"
publish = false

[dependencies]
core_affinity = "*"
crossbeam-channel = "0.5"
futures = "0.3"
mimalloc = "*"
monoio = "*"
pyo3 = "*"
pyo3-stub-gen = "*"
