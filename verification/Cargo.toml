[package]
name = "file_transfer"
version = "0.1.0"
edition = "2021"
publish = false

[dependencies]
rand = "*"
actix-web = "*"
futures = "*"
serde = { version = "*", features = ["derive"] }
serde_derive = "*"
toml = "*"
