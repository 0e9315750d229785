[package]
name = "connector"
version = "0.1.0"
edition = "2021"
publish = false

[dependencies]
anyhow = "*"
axum = { version = "*", features = ["ws"] }
crossfire = "*"
dashmap = "*"
dotenvy = "*"
futures = "*"
prost = "*"
redis = { version = "*", features = ["tokio-comp"] }
reqwest = { version = "*", default-features = false, features = ["json"] }
serde = { version = "*", features = ["derive"] }
serde_json = "*"
thiserror = "*"
tokio = { version = "*", features = ["rt-multi-thread", "macros", "net", "time", "signal", "sync"] }
tonic = "*"
tracing = "*"
tracing-subscriber = { version = "*", features = ["env-filter"] }
twox-hash = "*"
