[package]
name = "lib_simulation"
version = "0.1.0"
edition = "2021"
publish = false

[dependencies]
rand = "0.9"
rand_chacha = "0.9"
nalgebra = "0.34"

[dev-dependencies]
approx = "0.5"
