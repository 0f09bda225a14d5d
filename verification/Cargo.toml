[package]
name = "dialogue_script"
version = "0.1.0"
edition = "2021"
publish = false

[dependencies]
serde = { version = "*", features = ["derive"] }
serde_jsonrc = "*"
