[package]
name = "rust_motd"
version = "0.1.0"
edition = "2021"
publish = false

[dependencies]
toml = { version = "0.8", features = ["preserve_order"] }
chrono = "0.4"
openssl = "0.10"
termion = "*"
systemstat = "*"
