[package]
name = "font_fallback"
version = "0.1.0"
edition = "2021"
publish = false

[dependencies]
fontdb = "*"
log = "*"
unicode-script = "*"
