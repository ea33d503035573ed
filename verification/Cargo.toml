[package]
name = "acp-adapter"
version = "0.1.0"
edition = "2021"
publish = false

[dependencies]
agent-client-protocol = "=2.1.0"
nix = { version = "=0.31.3", features = ["signal", "process"] }
serde = { version = "=1.0.229", features = ["derive"] }
serde_json = "=1.0.154"
thiserror = "=2.0.21"
tokio = { version = "=1.54.1", features = ["full"] }
