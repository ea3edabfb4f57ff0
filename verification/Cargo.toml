[package]
name = "por_protocol"
version = "0.1.0"
edition = "2021"
publish = false

[dependencies]
chrono = "*"
