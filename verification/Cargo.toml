[package]
name = "oxidized"
version = "0.1.0"
edition = "2021"
publish = false

[dependencies]
anyhow = "=1.0.104"
regex = "=1.13.1"
serde = { version = "=1.0.229", features = ["derive"] }
toml = "=0.8.23"
crossterm = "=0.28.1"
log = "=0.4.35"
tree-sitter = "0.24"
tree-sitter-rust = "0.23"
