[package]
name = "ic_nodes"
version = "0.1.0"
edition = "2021"
publish = false

[dependencies]
anyhow = "1"
arc-swap = "1"
async-trait = "0.1"
axum = "0.6"
candid = "0.8"
http = "0.2"
hyper = "0.14"
ic-cdk = "0.7"
num-bigint = "0.4"
num-traits = "0.2"
rand = "0.8"
reqwest = { version = "0.11", default-features = false, features = ["stream"] }
serde = { version = "1", features = ["derive"] }
serde_bytes = "0.11"
serde_cbor = "0.11"
tokio = { version = "1", features = ["sync"] }
tower-http = { version = "0.4", features = ["request-id"] }
tracing = "0.1"
