[package]
name = "ray_tracer"
version = "0.1.0"
edition = "2021"
publish = false

[dependencies]
glam = "0.24"
image = { version = "0.24", default-features = false, features = ["png"] }
rand = "0.8"
rayon = "1"
tobj = "4"
yaml-rust = "0.4"
