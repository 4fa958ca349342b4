[package]
name = "english_input_assistant"
version = "0.1.0"
edition = "2021"
publish = false

[dependencies]
base64 = "0.22"
reqwest = { version = "0.12", default-features = false, features = ["blocking"] }
serde = { version = "1", features = ["derive"] }
serde_json = "1"
keyring = { version = "3", default-features = false }
