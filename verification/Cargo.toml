[package]
name = "photosort"
version = "0.1.0"
edition = "2021"
publish = false

[dependencies]
image = "*"
image_hasher = "*"
uuid = { version = "*", features = ["v4"] }
walkdir = "*"
rayon = "*"
chrono = "*"
serde = { version = "*", features = ["derive"] }
serde_json = "*"
thiserror = "*"
