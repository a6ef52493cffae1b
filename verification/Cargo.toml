[package]
name = "polar_pftp"
version = "0.1.0"
edition = "2021"
publish = false

[dependencies]
log = "*"
polar-prost = "*"
rusb = { version = "*", features = ["vendored"] }
simplelog = "*"
