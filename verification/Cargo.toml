[package]
name = "evosim"
version = "0.1.0"
edition = "2021"
publish = false

[dependencies]
rand = "*"
macroquad = { version = "*", default-features = false }
