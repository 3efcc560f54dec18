[package]
name = "hotham_xpbd"
version = "0.1.0"
edition = "2021"
publish = false

[dependencies]
anyhow = "1"
glam = "*"
gltf = { version = "1", default-features = false, features = ["utils"] }
itertools = "*"
nalgebra = "*"
openxr = { version = "*", default-features = false }
