[package]
name = "bitarray"
version = "0.1.0"
edition = "2021"
publish = false

[dependencies]
serde = "=1.0.229"
space = "=0.10.3"
