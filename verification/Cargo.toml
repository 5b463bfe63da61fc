[package]
name = "raytracer"
version = "0.1.0"
edition = "2021"
publish = false

[dependencies]
cgmath = "0.18"
image = { version = "0.23", default-features = false, features = ["jpeg", "png"] }
rand = "0.7"
