[package]
name = "gzpump"
version = "0.1.0"
edition = "2021"
publish = false

[dependencies]
miniz_oxide = "0.8"
crc32fast = "1"

[dev-dependencies]
flate2 = "1"
