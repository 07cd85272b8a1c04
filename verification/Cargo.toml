[package]
name = "ru"
version = "0.1.0"
edition = "2021"
publish = false

[dependencies]
simd-json = "*"
term_size = "*"
walkdir = "*"
