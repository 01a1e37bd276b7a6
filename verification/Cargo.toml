[package]
name = "vdf"
version = "0.1.0"
edition = "2021"
publish = false

[dependencies]
curv-kzen = "=0.10.0"
serde = { version = "=1.0.229", features = ["derive"] }
sha2 = "=0.9.9"
