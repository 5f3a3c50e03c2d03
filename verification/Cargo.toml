[package]
name = "mcpg-plugin-observability-audit"
version = "0.1.0"
edition = "2021"
publish = false

[dependencies]
metrics = "0.24"
serde = { version = "1", features = ["derive"] }
serde_json = "1"
sha2 = "0.10"
tracing = "0.1"
uuid = { version = "1", features = ["v7"] }
