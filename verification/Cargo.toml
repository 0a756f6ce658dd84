[package]
name = "super_snake"
version = "0.1.0"
edition = "2021"
publish = false

[dependencies]
rand = "0.8"
minifb = "*"
rodio = "*"
walkdir = "*"
itertools = "*"
serde = { version = "*", features = ["derive"] }
serde_json = "*"
