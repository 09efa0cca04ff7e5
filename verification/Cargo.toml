[package]
name = "payload_link"
version = "0.1.0"
edition = "2021"
publish = false

[dependencies]
chrono = "0.4"
cobs = "0.2"
serial = "0.4"
sha2 = "0.10"
