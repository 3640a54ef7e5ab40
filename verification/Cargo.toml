[package]
name = "clicker"
version = "0.1.0"
edition = "2021"
publish = false

[dependencies]
bevy_rand = { version = "0.14", default-features = false, features = ["wyrand"] }
hexx = "=0.25.0"
glam = "=0.32.1"
rand_core = "*"
serde_json = "=1.0.154"
clap = { version = "=4.6.7", features = ["derive"] }
