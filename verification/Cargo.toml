[package]
name = "core_trace"
version = "0.1.0"
edition = "2021"
publish = false

[dependencies]
miden-air = "0.17"
miden-core = "0.17"
rayon = "1"
winter-prover = "0.13"
