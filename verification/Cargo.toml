[package]
name = "httpd_rs"
version = "0.1.0"
edition = "2021"
publish = false

[dependencies]
regex = "1"
bufstream = "0.1"
