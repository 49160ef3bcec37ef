[package]
name = "cai_cyclic"
version = "0.1.0"
edition = "2021"
publish = false

[dependencies]
binfield_matrix = "*"
