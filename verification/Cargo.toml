[package]
name = "editor"
version = "0.1.0"
edition = "2021"
publish = false

[dependencies]
ropey = { version = "=1.6.1", default-features = false }
crossterm = "=0.29.0"
clap = { version = "=4.6.7", features = ["derive"] }
