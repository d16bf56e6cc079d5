[package]
name = "copland"
version = "0.1.0"
edition = "2021"
publish = false

[dependencies]
num = "*"
itertools = "*"
regex = "*"
chrono = "*"
path-clean = "*"
