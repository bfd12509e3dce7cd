[package]
name = "hotplot"
version = "0.1.0"
edition = "2021"
publish = false

[dependencies]
chrono = "0.4"
iced = { version = "0.3", features = ["canvas"] }
