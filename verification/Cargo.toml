[package]
name = "derender"
version = "0.1.0"
edition = "2021"
publish = false

[dependencies]
float_extras = "*"
modppl = "*"
