[package]
name = "narrow"
version = "0.1.0"
edition = "2021"
publish = false

[dependencies]
arrow-buffer = "*"
arrow-array = "*"
arrow-schema = "*"
