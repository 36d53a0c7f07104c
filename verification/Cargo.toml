[package]
name = "calc"
version = "0.1.0"
edition = "2021"
publish = false

[dependencies]
nom = "7"
rustc_apfloat = "0.2"
rustyline = "*"
