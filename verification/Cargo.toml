[package]
name = "gtlite_installer"
version = "0.1.0"
edition = "2021"
publish = false

[dependencies]
dirs = "6"
reqwest = { version = "0.12", features = ["blocking"] }
serde = { version = "1", features = ["derive"] }
