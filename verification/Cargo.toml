[package]
name = "media_core"
version = "0.1.0"
edition = "2021"
publish = false

[dependencies]
gif = "0.13"
image = { version = "0.25", default-features = false, features = ["png", "jpeg", "gif"] }
serde = { version = "1", features = ["derive"] }
walkdir = "2"
