[package]
name = "kubes_cd_sidecar"
version = "0.1.0"
edition = "2021"
publish = false

[dependencies]
k8s-openapi = { version = "=0.24.0", features = ["latest"] }
kube = { version = "=0.99.0", default-features = false, features = ["client", "rustls-tls"] }
log = "=0.4.34"
pretty_env_logger = "=0.5.0"
reqwest = { version = "=0.12.28", default-features = false, features = ["json", "rustls-tls"] }
serde = { version = "=1.0.229", features = ["derive"] }
serde_derive = "=1.0.229"
tokio = { version = "=1.53.2", features = ["macros", "rt-multi-thread", "time"] }
