[package]
name = "gpmf_rs"
version = "0.1.0"
edition = "2021"
publish = false

[dependencies]
blake3 = "=1.8.7"
time = "=0.3.55"
