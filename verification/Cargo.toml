[package]
name = "accepted"
version = "0.1.0"
edition = "2021"
publish = false

[dependencies]
unicode-width = "*"
serde_json = "*"
jsonrpc-core = "*"
languageserver-types = "*"
serde = { version = "*", features = ["derive"] }
termion = "*"
toml = "*"
dirs = "*"
clap = "*"
