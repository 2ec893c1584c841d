[package]
name = "maiscript"
version = "0.1.0"
edition = "2021"
publish = false

[dependencies]
arrayvec = "*"
boa_string = "*"
unicode-id-start = "*"
thiserror = "*"
