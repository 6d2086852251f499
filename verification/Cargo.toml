[package]
name = "derky"
version = "0.1.0"
edition = "2021"
publish = false

[dependencies]
bytemuck = "*"
ultraviolet = { version = "=0.10.0", features = ["bytemuck"] }
