[package]
name = "catzou"
version = "0.1.0"
edition = "2021"
publish = false

[dependencies]
adler = "*"
crc32fast = "*"
miniz_oxide = "*"
