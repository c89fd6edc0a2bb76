[package]
name = "fmtna"
version = "0.1.0"
edition = "2021"
publish = false

[dependencies]
regex = "*"
unidecode = "*"
edit-distance = "*"
chrono = "*"
