[package]
name = "rnano"
version = "0.1.0"
edition = "2021"
publish = false

[dependencies]
crossterm = "0.28"
ropey = { version = "1", default-features = false }
unicode-width = "0.2"
