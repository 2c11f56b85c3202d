[package]
name = "olds"
version = "0.1.0"
edition = "2021"
publish = false

[dependencies]
bytebuffer = "=2.0.1"
network-interface = "=0.1.6"
