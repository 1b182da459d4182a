[package]
name = "configurafox"
version = "0.1.0"
edition = "2021"
publish = false

[dependencies]
html_editor = "*"
katex = "*"
pathdiff = "*"
syntect = { version = "*", default-features = false, features = ["default-fancy"] }
tracing = "*"
