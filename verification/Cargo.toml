[package]
name = "sitegen"
version = "0.1.0"
edition = "2021"
publish = false

[dependencies]
pulldown-cmark = "0.9"
toml = "0.8"

[dependencies.syntect]
version = "5"
default-features = false
features = ["default-fancy"]
