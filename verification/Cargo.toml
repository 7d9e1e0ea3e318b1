[package]
name = "http_compress"
version = "0.1.0"
edition = "2021"
publish = false

[dependencies]
afire = "=0.4.0"
brotli2 = "=0.3.2"
flate2 = "=1.1.10"
libflate = "=2.3.2"
