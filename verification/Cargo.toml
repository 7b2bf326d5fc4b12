[package]
name = "auto_prompt"
version = "0.1.0"
edition = "2021"
publish = false

[dependencies]
agent-client-protocol = "*"
anyhow = "1"
chrono = "0.4"
futures = "0.3"
log = "0.4"
reqwest = { version = "0.12", default-features = false }
schemars = "1"
serde = { version = "1", features = ["derive"] }
serde_json = { version = "1", features = ["raw_value"] }
