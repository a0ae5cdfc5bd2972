[package]
name = "weekend_raytracer"
version = "0.1.0"
edition = "2021"
publish = false

[dependencies]
rand = "0.8"
anyhow = "1"
clap = { version = "4", features = ["derive"] }
image = "0.24"
palette = "0.7"
