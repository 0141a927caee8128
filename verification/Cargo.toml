[package]
name = "routerd"
version = "0.3.0"
edition = "2021"
publish = false

[dependencies]
anyhow = "1"
async-trait = "0.1"
axum = "0.7"
bytes = "1"
clap = { version = "4", features = ["derive"] }
colored = "2"
futures = "0.3"
hyper-util = { version = "0.1", features = ["server-auto", "tokio", "service"] }
reqwest = { version = "0.12", default-features = false, features = ["json", "stream", "rustls-tls"] }
rustix = { version = "0.38", features = ["fs", "net", "param", "process"] }
serde = { version = "1", features = ["derive"] }
serde_json = "1"
tabled = "0.15"
thiserror = "1"
tokio = { version = "1", features = ["full"] }
tokio-stream = "0.1"
toml = "0.8"
toml_edit = "0.22"
tracing = "0.1"
tracing-subscriber = { version = "0.3", features = ["env-filter"] }
uuid = { version = "1", features = ["v4"] }
