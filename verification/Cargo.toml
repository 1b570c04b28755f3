[package]
name = "pathtracer"
version = "0.1.0"
edition = "2021"
publish = false

[dependencies]
clap = { version = "=4.6.7", features = ["derive"] }
euclid = { version = "=0.22.14", features = ["serde"] }
indicatif = "=0.17.11"
pixels = "0.13"
png = "=0.17.16"
rand = "=0.8.8"
serde = { version = "=1.0.229", features = ["derive"] }
toml = "=0.8.23"
winit = "0.28"
