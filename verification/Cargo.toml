[package]
name = "se37like"
version = "0.1.0"
edition = "2021"
publish = false

[dependencies]
base64 = "0.22"
colored = "2"
comfy-table = "7"
inquire = "0.7"
reqwest = { version = "0.12", features = ["blocking", "json", "cookies"] }
serde = { version = "1", features = ["derive"] }
serde_json = "1"
