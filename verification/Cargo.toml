[package]
name = "gargo"
version = "0.1.0"
edition = "2021"
publish = false

[dependencies]
unicode-width = "*"
crossterm = "*"
regex = "*"
ropey = "*"
serde = { version = "1", features = ["derive"] }
serde_json = "1"
