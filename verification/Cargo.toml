[package]
name = "ray_tracer_challenge"
version = "0.1.0"
edition = "2021"
publish = false

[dependencies]
uuid = { version = "1", features = ["v4"] }
image = { version = "0.24", default-features = false, features = ["png"] }
