[package]
name = "tiny_firestore_odm"
version = "0.2.0"
edition = "2021"
publish = false

[dependencies]
anyhow = "=1.0.104"
firestore-serde = "=0.1.2"
googapis = { version = "=0.6.0", features = ["google-firestore-v1"] }
google-authz = "=0.0.2"
http = "=0.2.12"
hyper = "=0.14.32"
serde = "=1.0.229"
tokio = { version = "=1.54.1", features = ["sync"] }
tokio-stream = "=0.1.19"
tonic = { version = "=0.6.2", features = ["tls"] }
tower-service = "=0.3.3"
