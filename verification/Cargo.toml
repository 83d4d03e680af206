[package]
name = "s2_mcp"
version = "0.1.0"
edition = "2021"
publish = false

[dependencies]
base64ct = { version = "=1.8.3", features = ["alloc"] }
serde = { version = "=1.0.229", features = ["derive"] }
serde_json = "=1.0.154"
schemars = "=1.2.3"
clap = { version = "=4.6.7", features = ["derive"] }
tokio = { version = "=1.54.1", features = ["rt", "macros", "process", "io-util", "io-std", "time", "sync"] }
rmcp = { version = "=3.8.0", features = ["server", "transport-io"] }
s2-sdk = "=0.35.3"
toml = "=1.1.8"
dirs = "=7.0.0"
tracing-subscriber = { version = "=0.3.23", features = ["env-filter"] }
s2-testcontainers = "*"
