[package]
name = "dirble"
version = "0.1.0"
edition = "2021"
publish = false

[dependencies]
curl = "0.4"
rand = "0.8"

[dev-dependencies]
mockito = "0.31"
