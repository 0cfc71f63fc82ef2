[package]
name = "plexus-core"
version = "0.1.0"
edition = "2021"
publish = false

[dependencies]
async-stream = "*"
async-trait = "*"
bitflags = "2"
chrono = "0.4"
futures = "0.3"
futures-core = "0.3"
http = "1"
jsonrpsee = { version = "*", features = ["server"] }
plexus-auth-core = "*"
schemars = "1"
serde = { version = "1", features = ["derive"] }
serde_json = "1"
thiserror = "*"
tokio = { version = "1", features = ["full"] }
tokio-stream = "0.1"
tracing = "0.1"
uuid = { version = "1", features = ["v4", "v5", "serde"] }
