[package]
name = "libplen"
version = "0.1.0"
edition = "2021"
publish = false

[dependencies]
macroquad = { version = "0.4", default-features = false }
pollster = "0.3"
rand = "=0.7.3"
serde = { version = "=1.0.229", features = ["derive"] }
