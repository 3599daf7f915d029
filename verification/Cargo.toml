[package]
name = "corne_matrix"
version = "0.1.0"
edition = "2021"
publish = false

[dependencies]
rmk = { version = "*", default-features = false }
paste = "1"
