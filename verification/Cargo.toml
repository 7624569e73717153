[package]
name = "rscache"
version = "0.1.0"
edition = "2021"
publish = false

[dependencies]
flate2 = "*"
bzip2 = "*"
crc32fast = "*"
serde = { version = "*", features = ["derive"] }
