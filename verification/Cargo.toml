[package]
name = "raytracer"
version = "0.1.0"
edition = "2021"
publish = false

[dependencies]
const_soft_float = "=0.1.4"
rand = "=0.8.8"
rustc_apfloat = "=0.2.3"
