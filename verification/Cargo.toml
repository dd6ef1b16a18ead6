[package]
name = "voxel_game"
version = "0.1.0"
edition = "2021"
publish = false

[dependencies]
dashmap = "=6.2.1"
noise = "=0.9.0"
cgmath = "=0.18.0"
threadpool = "=1.8.1"
ultraviolet = "=0.10.0"
glium = "0.25"
image = { version = "0.23", default-features = false, features = ["png"] }
