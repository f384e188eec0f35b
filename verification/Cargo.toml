[package]
name = "zhtw-mcp"
version = "0.1.0"
edition = "2021"
publish = false

[dependencies]
anyhow = "1"
blake3 = "1"
dirs = "*"
fs2 = "0.4"
rayon = "1"
rmcp = { version = "*", default-features = false, features = ["server"] }
serde = { version = "1", features = ["derive"] }
serde_json = "1"
tempfile = "3"
tokio = { version = "1", features = ["full"] }
tracing = "0.1"
