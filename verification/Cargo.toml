[package]
name = "hkulib"
version = "0.1.0"
edition = "2021"
publish = false

[dependencies]
authku = "*"
regex = "*"
soup = "*"
