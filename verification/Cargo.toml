[package]
name = "voxel_chunk"
version = "0.1.0"
edition = "2021"
publish = false

[dependencies]
block-mesh = "=0.2.0"
cgmath = "=0.18.0"
gl = "=0.14.0"
glfw = { version = "=0.51.0", default-features = false }
image = { version = "=0.24.9", default-features = false, features = ["png"] }
nalgebra-glm = "=0.21.0"
noise = "=0.8.2"
simdnoise = "=3.1.6"
thiserror = "=1.0.69"
