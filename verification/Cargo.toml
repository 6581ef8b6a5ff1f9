[package]
name = "linalg"
version = "0.1.0"
edition = "2021"
publish = false

[dependencies]
gl = "*"
glfw = "*"
imagefmt = "*"
time = "0.1"
