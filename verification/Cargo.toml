[package]
name = "muaaz"
version = "0.1.0"
edition = "2021"
publish = false

[dependencies]
gtk4 = "0.7"
libadwaita = { version = "0.5", features = ["v1_2"] }
