[package]
name = "monkey"
version = "0.1.0"
edition = "2021"
publish = false

[dependencies]
serde = { version = "1", features = ["derive"] }
rand_core = "0.9"
async-compat = "0.2"
