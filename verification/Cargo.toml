[package]
name = "onnx_ml"
version = "0.1.0"
edition = "2021"
publish = false

[dependencies]
string-interner = "*"
parking_lot = "*"
dashmap = "*"
prost = "0.13"
rand = "0.8"
rand_xoshiro = "0.6"
rayon = "*"
anyhow = "*"
itertools = "*"
simsimd = "*"
