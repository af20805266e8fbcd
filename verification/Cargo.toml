[package]
name = "indra"
version = "0.1.0"
edition = "2021"
publish = false

[dependencies]
lerp = "*"
rppal = "*"
rust_gpiozero = "*"
