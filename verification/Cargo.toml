[package]
name = "workflow_coordinator"
version = "0.1.0"
edition = "2021"
publish = false

[dependencies]
chrono = { version = "=0.4.45", default-features = false, features = ["clock"] }
dotenvy = "=0.15.7"
hiqlite = { version = "=0.12.2", features = ["cache", "shutdown-handle"] }
hiqlite-macros = "=0.12.0"
prost = "0.14"
serde = { version = "=1.0.229", features = ["derive"] }
strum = { version = "=0.27.2", features = ["derive"] }
tokio = { version = "=1.54.1", features = ["full"] }
tokio-cron-scheduler = "=0.15.1"
tonic = "=0.14.6"
tonic-prost = "0.14"
tracing = "=0.1.44"
tracing-subscriber = { version = "=0.3.23", features = ["env-filter"] }
