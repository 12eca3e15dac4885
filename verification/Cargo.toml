[package]
name = "cnone"
version = "0.1.0"
edition = "2021"
publish = false

[dependencies]
cranelift = "=0.130.2"
