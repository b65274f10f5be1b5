[package]
name = "lite_session"
version = "0.1.0"
edition = "2021"
publish = false

[dependencies]
blake3 = "=1.8.7"
chacha20 = "=0.9.1"
hex = "=0.4.3"
nanorand = "=0.5.2"
tai64 = "=3.1.0"
