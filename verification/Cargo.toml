[package]
name = "rendercore"
version = "0.1.0"
edition = "2021"
publish = false

[dependencies]
wgpu = "*"
glfw = "*"
glam = "*"
pollster = "*"
rand = "*"
rapier3d = "*"
nalgebra = "*"
tobj = "*"
