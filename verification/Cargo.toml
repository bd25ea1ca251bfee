[package]
name = "neural_network"
version = "0.1.0"
edition = "2021"
publish = false

[dependencies]
chrono = { version = "0.4", default-features = false, features = ["clock", "std"] }
csv = "1"
rand = "0.8"
rand_distr = "0.4"
