[package]
name = "input_span"
version = "0.1.0"
edition = "2021"
publish = false

[dependencies]
nom = "7.1.3"
unwrap = "1"
