[package]
name = "things-api"
version = "0.1.0"
edition = "2021"
publish = false

[dependencies]
rand = "=0.9.5"
axum = "=0.8.9"
tokio = { version = "=1.54.1", features = ["macros", "rt-multi-thread", "net", "process", "io-util", "time", "sync"] }
tower-http = { version = "=0.6.11", features = ["cors"] }
tracing = "=0.1.44"
tracing-subscriber = { version = "=0.3.23", features = ["env-filter"] }
clap = { version = "=4.6.7", features = ["derive", "env"] }
dirs = "=6.0.0"
serde = { version = "=1.0.229", features = ["derive"] }
serde_json = "=1.0.154"
utoipa = "=5.5.0"
reqwest = { version = "0.12", default-features = false, features = ["json"] }
