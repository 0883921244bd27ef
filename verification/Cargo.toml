[package]
name = "bedelli"
version = "0.1.0"
edition = "2021"
publish = false

[dependencies]
bracket-lib = "0.8"
legion = "0.4"
rand = "0.8"
