[package]
name = "kubizone"
version = "0.1.0"
edition = "2021"
publish = false

[dependencies]
kubizone-common = "=0.14.6"
kubizone-crds = "=0.13.2"
time = "=0.3.55"
kube = { version = "=0.92.1", default-features = false, features = ["derive", "rustls-tls", "client", "runtime"] }
k8s-openapi = { version = "=0.22.0", features = ["v1_29"] }
json-patch = "=2.0.0"
serde_json = "1"
tokio = { version = "1", features = ["macros", "rt"] }
futures = "0.3"
clap = { version = "4", features = ["derive", "env"] }
tracing = "0.1"
tracing-subscriber = "0.3"
