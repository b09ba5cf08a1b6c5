[package]
name = "sketchbook"
version = "0.1.0"
edition = "2021"
publish = false

[dependencies]
biodivine-lib-param-bn = "*"
csv = "*"
