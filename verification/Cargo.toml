[package]
name = "iprfc"
version = "0.1.0"
edition = "2021"
publish = false

[dependencies]
ipnet = "2"
serde = { version = "1", features = ["derive"] }
