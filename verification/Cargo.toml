[package]
name = "predator_snake_dqn"
version = "0.1.0"
edition = "2021"
publish = false

[dependencies]
rand = "0.8"
ndarray = "0.16"
bevy = { version = "0.14", default-features = false }
pyo3 = "0.22"
numpy = "0.22"
crossbeam-channel = "0.5"
