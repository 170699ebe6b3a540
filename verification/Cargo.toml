[package]
name = "gg"
version = "0.1.0"
edition = "2021"
publish = false

[dependencies]
glium = "0.32"
time = "0.1"
vec_map = "0.8"
