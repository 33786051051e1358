[package]
name = "fogo"
version = "0.1.0"
edition = "2021"
publish = false

[dependencies]
clap = { version = "4", default-features = false, features = ["std", "help", "usage", "error-context"] }
