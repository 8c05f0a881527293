[package]
name = "kubelet"
version = "0.1.0"
edition = "2021"
publish = false

[dependencies]
anyhow = "1.0"
futures = "0.3"
k8s-openapi = { version = "0.7", default-features = false, features = ["v1_17"] }
kube = "0.33"
log = "0.4"
serde_json = "1.0"
tokio = { version = "0.2", features = ["macros", "rt-threaded", "sync", "time", "tcp", "io-util", "stream"] }
