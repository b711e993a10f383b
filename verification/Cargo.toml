[package]
name = "planet_render"
version = "0.1.0"
edition = "2021"
publish = false

[dependencies]
fastnoise-lite = "*"
nalgebra-glm = "*"
minifb = "*"
