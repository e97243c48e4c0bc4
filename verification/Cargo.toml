[package]
name = "render"
version = "0.1.0"
edition = "2021"
publish = false

[dependencies]
lodepng = "*"
serde = { version = "*", features = ["derive"] }
serde_json = "*"
