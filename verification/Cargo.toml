[package]
name = "cista"
version = "0.1.0"
edition = "2021"
publish = false

[dependencies]
clap = { version = "4", features = ["derive"] }
fs2 = "0.4"
serde = { version = "1", features = ["derive"] }
tar = "0.4"
toml = "0.8"
ureq = "3"
