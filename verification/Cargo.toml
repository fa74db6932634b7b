[package]
name = "absurd_sdk"
version = "1.0.0"
edition = "2021"
publish = false

[dependencies]
tokio-postgres = { version = "0.7", features = ["with-serde_json-1", "with-chrono-0_4"] }
serde_json = "1"
fnv = "1"
tokio = { version = "1", features = ["rt-multi-thread", "macros", "sync", "time"] }
deadpool-postgres = "0.14"
serde = { version = "1", features = ["derive"] }
chrono = { version = "0.4", default-features = false, features = ["clock", "std"] }
hostname = "0.4"
anyhow = "1"
clap = { version = "4", features = ["derive", "env"] }
tracing = "0.1"
tracing-subscriber = { version = "0.3", features = ["env-filter"] }
async-trait = "0.1"
thiserror = "2"
axum = { version = "0.8", default-features = false, features = ["json"] }
