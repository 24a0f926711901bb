[package]
name = "ils"
version = "0.1.0"
edition = "2021"
publish = false

[dependencies]
crossterm = "*"
syntect = "*"
viuer = { version = "*", features = ["print-file"] }
pdf-extract = "*"
serde = { version = "*", features = ["derive"] }
toml = "*"
