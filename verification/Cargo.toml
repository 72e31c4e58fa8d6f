[package]
name = "ggl"
version = "0.1.0"
edition = "2021"
publish = false

[dependencies]
byteorder = "1.5"
obj = "0.10"
nalgebra-glm = "0.17"
glow = "0.11"
image = { version = "0.24", default-features = false, features = ["png", "jpeg"] }
