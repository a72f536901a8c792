[package]
name = "semantic_guard"
version = "0.1.0"
edition = "2021"
publish = false

[dependencies]
near-sdk = { version = "*", features = ["legacy", "unit-testing"] }
