[package]
name = "sentinel"
version = "0.1.0"
edition = "2021"
publish = false

[dependencies]
regex = "*"
axum = "*"
clap = { version = "*", features = ["derive", "env"] }
figment = { version = "*", features = ["yaml", "env"] }
hyper-util = { version = "*", features = ["tokio", "server-auto", "service"] }
json-patch = "*"
kube = { version = "*", default-features = false, features = ["admission"] }
k8s-openapi = { version = "*", features = ["latest"] }
prometheus-client = "*"
rustls = "*"
rustls-pemfile = "*"
serde = { version = "*", features = ["derive"] }
serde_json = "*"
thiserror = "*"
tokio = { version = "*", features = ["macros", "rt-multi-thread", "signal", "net", "sync"] }
tokio-rustls = "*"
tracing = "*"
tracing-subscriber = { version = "*", features = ["env-filter", "json"] }
