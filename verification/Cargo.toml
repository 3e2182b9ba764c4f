[package]
name = "rot_reducer"
version = "0.1.0"
edition = "2021"
publish = false

[dependencies]
heapless = "0.8"
statig = { version = "=0.4.1", default-features = false }
