[package]
name = "trimark"
version = "0.1.0"
edition = "2021"
publish = false

[dependencies]
resvg = "*"

[dev-dependencies]
roxmltree = "*"
