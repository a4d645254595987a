[package]
name = "lyon_path"
version = "0.1.0"
edition = "2021"
publish = false

[dependencies]
lyon_geom = "=0.14.1"
serde = { version = "=1.0.229", features = ["derive"] }
