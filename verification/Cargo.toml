[package]
name = "edge_transport_http_egress"
version = "0.1.0"
edition = "2021"
publish = false

[dependencies]
async-trait = "=0.1.92"
bytes = "=1.12.1"
futures = "=0.3.34"
http = "=1.5.0"
reqwest = { version = "=0.12.28", default-features = false, features = ["json", "multipart", "stream", "rustls-tls"] }
reqwest-middleware = { version = "=0.4.2", features = ["json", "multipart"] }
serde = { version = "=1.0.229", features = ["derive"] }
serde_json = "=1.0.154"
tokio = { version = "=1.54.1", features = ["rt", "sync"] }
tokio-tungstenite = "=0.28.0"
