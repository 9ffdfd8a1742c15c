[package]
name = "rwg"
version = "0.1.0"
edition = "2021"
publish = false

[dependencies]
base64 = "0.13"
rand = "0.8"
x25519-dalek = "2"
