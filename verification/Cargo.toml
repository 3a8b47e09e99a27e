[package]
name = "sk_watch"
version = "0.1.0"
edition = "2021"
publish = false

[dependencies]
kube = { version = "=4.2.0", default-features = false, features = ["client", "runtime"] }
k8s-openapi = { version = "=0.28.0", features = ["latest"] }
tokio = { version = "=1.53.2", features = ["macros", "rt-multi-thread"] }
futures = "=0.3.34"
anyhow = "=1.0.104"
tracing = "=0.1.44"
serde_json = "*"
