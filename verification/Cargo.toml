[package]
name = "hexlife"
version = "0.1.0"
edition = "2021"
publish = false

[dependencies]
hex2d = "=0.3.0"
nannou = { version = "0.15", default-features = false }
