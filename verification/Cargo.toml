[package]
name = "lm"
version = "0.1.0"
edition = "2021"
publish = false

[dependencies]
ndarray = "0.16"
libc = "0.2"
thiserror = "1"
derive_builder = "0.20"
