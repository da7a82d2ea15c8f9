[package]
name = "rust_tracing"
version = "0.1.0"
edition = "2021"
publish = false

[dependencies]
array-init = "*"
dyn-clone = "*"
glam = "0.9"
num_cpus = "*"
rand = "0.7"
