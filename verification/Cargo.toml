[package]
name = "raytracer"
version = "0.1.0"
edition = "2021"
publish = false

[dependencies]
rand = "=0.8.8"
rayon = "=1.12.0"
bytemuck = { version = "=1.25.2", features = ["derive"] }
indicatif = { version = "0.17", features = ["rayon"] }
image = { version = "=0.24.9", default-features = false, features = ["png"] }
