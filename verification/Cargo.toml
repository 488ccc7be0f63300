[package]
name = "textview"
version = "0.1.0"
edition = "2021"
publish = false

[dependencies]
freetype-rs = "*"
gl = "*"
glutin = "0.29"
