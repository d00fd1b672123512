[package]
name = "dezes"
version = "0.1.0"
edition = "2021"
publish = false

[dependencies]
memchr = "2"
regex = "1"
unicode-width = "*"
encoding_rs = "0.8"
rand = "0.9"
clap = { version = "4", features = ["derive"] }
