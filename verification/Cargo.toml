[package]
name = "cube"
version = "0.1.0"
edition = "2021"
publish = false

[dependencies]
glm = "0.2"
ieee754 = "0.2"
num-traits = "0.2"
