[package]
name = "bridgescope"
version = "0.8.8"
edition = "2021"
publish = false

[dependencies]
vt100 = "=0.18.1"
serde = { version = "=1.0.229", features = ["derive"] }
serde_json = "=1.0.154"
image = { version = "0.25", default-features = false, features = ["png"] }
