[package]
name = "bacchus_gpu_controller"
version = "0.1.0"
edition = "2021"
publish = false

[dependencies]
anyhow = "1"
axum = "0.6"
axum-server = { version = "0.5", features = ["tls-rustls"] }
csv = "1"
envy = "0.4"
futures = "0.3"
google-drive3 = "5"
json-patch = "1"
k8s-openapi = { version = "0.18", features = ["v1_26", "schemars"] }
kube = { version = "0.83", default-features = false, features = ["client", "rustls-tls", "runtime", "derive", "admission"] }
schemars = "0.8"
serde = { version = "1", features = ["derive"] }
serde_json = "1"
serde_yaml = "0.9"
sha256 = "1"
stopper = "0.2"
thiserror = "1"
tokio = { version = "1", features = ["full"] }
tracing = "0.1"
tracing-subscriber = "0.3"
