[package]
name = "nn_core"
version = "0.1.0"
edition = "2021"
publish = false

[dependencies]
csv = "*"
ndarray = "*"
plotters = "*"
rand = "0.8"
