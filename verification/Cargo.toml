[package]
name = "assignment"
version = "0.1.0"
edition = "2021"
publish = false

[dependencies]
evalexpr = "*"
regex = "*"
serde = { version = "*", features = ["derive"] }
actix-web = "*"
env_logger = "*"
