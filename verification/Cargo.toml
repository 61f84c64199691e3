[package]
name = "helm_storage"
version = "0.1.0"
edition = "2021"
publish = false

[dependencies]
base64 = "=0.10.1"
chrono = { version = "=0.4.19", features = ["serde"] }
env_logger = "=0.6.2"
failure = "=0.1.8"
flate2 = "=1.1.10"
k8s-openapi = { version = "=0.5.1", default-features = false, features = ["v1_15"] }
kube = { version = "=0.16.1", features = ["openapi"] }
log = "=0.4.34"
reqwest = "=0.9.24"
serde = { version = "=1.0.229", features = ["derive"] }
serde_json = "=1.0.154"
serde_yaml = "=0.8.26"
