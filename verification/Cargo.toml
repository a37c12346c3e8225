[package]
name = "chacha8rand"
version = "0.1.0"
edition = "2021"
publish = false

[dependencies]
wide = "=1.7.1"
rand_core = "=0.9.5"

[dev-dependencies]
rand_chacha = "=0.9.0"
