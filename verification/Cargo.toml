[package]
name = "rusty_tools"
version = "0.1.0"
edition = "2021"
publish = false

[dependencies]
rusqlite = { version = "=0.40.2", features = ["bundled"] }
rmcp = { version = "=3.5.1", features = ["transport-io"] }
tokio = { version = "=1.53.2", features = ["full"] }
tempfile = "=3.27.0"
serde = { version = "=1.0.229", features = ["derive"] }
serde_json = "=1.0.151"
anyhow = "=1.0.104"
which = "=8.0.6"
