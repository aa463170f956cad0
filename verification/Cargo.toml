[package]
name = "world"
version = "0.1.0"
edition = "2021"
publish = false

[dependencies]
hi_sparse_bitset = "*"
