[package]
name = "conjure"
version = "0.1.0"
edition = "2021"
publish = false

[dependencies]
regex = "1"
chrono = { version = "0.4", features = ["serde"] }
serde = { version = "1", features = ["derive"] }
serde_json = "1"
uuid = { version = "1", features = ["v4", "serde"] }
axum = "0.8"
tokio = { version = "1", features = ["macros", "rt-multi-thread", "process", "io-util", "io-std", "sync", "time", "net"] }
tokio-stream = { version = "0.1", features = ["sync"] }
futures = "0.3"
sqlx = { version = "0.8", default-features = false, features = ["sqlite", "runtime-tokio"] }
jsonschema = { version = "*", default-features = false }
tempfile = "3"
thiserror = "2"
anyhow = "1"
tower-http = { version = "0.6", features = ["cors", "fs"] }
tracing = "0.1"
tracing-subscriber = { version = "0.3", features = ["env-filter"] }
