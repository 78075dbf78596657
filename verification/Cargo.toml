[package]
name = "number_to_text"
version = "0.1.0"
edition = "2021"
publish = false

[dependencies]
num = "*"
