[package]
name = "typemake"
version = "0.1.0"
edition = "2021"
publish = false

[dependencies]
clap = { version = "4", features = ["derive"] }
log = "0.4"
simplelog = "0.12"
pyo3 = "0.20"
