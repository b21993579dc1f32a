[package]
name = "pep440_ranges"
version = "0.1.0"
edition = "2021"
publish = false

[dependencies]
pep440 = "*"
