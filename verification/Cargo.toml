[package]
name = "packet_layers"
version = "0.1.0"
edition = "2021"
publish = false

[dependencies]
anyhow = "1"
capsule = "0.1"
tracing = "0.1"
tracing-subscriber = "0.3"
