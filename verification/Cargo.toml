[package]
name = "switchyard_route"
version = "0.1.0"
edition = "2021"
publish = false

[dependencies]
async-trait = "0.1"
bytes = "1"
futures = "0.3"
http = "=1.5.0"
pingora-core = { version = "0.8", default-features = false }
praxis-proxy-core = { version = "=0.7.5", default-features = false }
praxis-proxy-filter = { version = "=0.7.5", default-features = false }
serde = { version = "1", features = ["derive"] }
serde_json = "=1.0.154"
serde_yaml = "0.9"
tokio = { version = "1", features = ["net"] }
tracing = "0.1"
