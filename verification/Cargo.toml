[package]
name = "ropebench"
version = "0.1.0"
edition = "2021"
publish = false

[dependencies]
crop = "*"
jumprope = "*"
ropey = "*"
xi-rope = "*"
criterion = { version = "*", default-features = false }
