[package]
name = "rustic_reader"
version = "0.1.0"
edition = "2021"
publish = false

[dependencies]
neon = "1"
pcsc = "2"
