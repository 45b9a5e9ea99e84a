[package]
name = "poseidon2_air"
version = "0.1.0"
edition = "2021"
publish = false

[dependencies]
p3-air = "=0.1.0"
p3-field = "=0.1.0"
p3-matrix = "=0.1.0"
rand = "0.8"
