[package]
name = "sl"
version = "0.1.0"
edition = "2021"
publish = false

[dependencies]
rand = "0.8"
clap = "2"
cursive = { version = "0.21", default-features = false, features = ["crossterm-backend"] }
