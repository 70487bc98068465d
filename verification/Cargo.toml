[package]
name = "paqus_wallet"
version = "0.1.0"
edition = "2021"
publish = false

[dependencies]
getrandom = "0.3"
hex = "0.4"
serde = { version = "1", features = ["derive"] }
serde_json = "1"
