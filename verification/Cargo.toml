[package]
name = "berry_songs"
version = "0.1.0"
edition = "2021"
publish = false

[dependencies]
near-sdk = { version = "=5.29.1", features = ["unit-testing"] }

[dev-dependencies]
near-parameters = "=0.37.4"
