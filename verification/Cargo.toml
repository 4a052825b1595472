[package]
name = "pbrt4"
version = "0.1.0"
edition = "2021"
publish = false

[dependencies]
glam = "=0.22.0"
bytemuck = "=1.25.2"
