[package]
name = "token_authority"
version = "0.1.0"
edition = "2021"
publish = false

[dependencies]
borsh = { version = "1.5", features = ["derive"] }
serde = { version = "1", features = ["derive"] }
