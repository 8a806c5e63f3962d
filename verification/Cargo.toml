[package]
name = "quinn-noise"
version = "0.1.0"
edition = "2021"
publish = false

[dependencies]
curve25519-dalek = "=3.2.1"
ed25519-dalek = "=1.0.1"
quinn-proto = { version = "=0.7.3", default-features = false, features = ["ring"] }
rand_core = { version = "=0.5.1", features = ["getrandom"] }
ring = "=0.16.20"
subtle = "=2.6.1"
tracing = "0.1"
xoodoo = "=0.1.0"
