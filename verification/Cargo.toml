[package]
name = "snake"
version = "0.1.0"
edition = "2021"
publish = false

[dependencies]
crossterm = "*"
rand = "*"
serde = { version = "1", features = ["derive"] }
toml = "*"
uuid = { version = "1", features = ["v4"] }
