[package]
name = "oimdp_rs"
version = "0.1.0"
edition = "2021"
publish = false

[dependencies]
anyhow = "1"
enum-as-inner = "*"
once_cell = "1"
regex = "1"
