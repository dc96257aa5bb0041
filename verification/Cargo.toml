[package]
name = "x3dh"
version = "0.1.0"
edition = "2021"
publish = false

[dependencies]
blake3 = { version = "=1.8.7", features = ["pure"] }
ed25519-dalek = "=1.0.1"
hex = "=0.4.3"
rand = "=0.7.3"
tai64 = "=4.1.0"
x25519-dalek = "=1.2.0"
zeroize = "=1.3.0"
