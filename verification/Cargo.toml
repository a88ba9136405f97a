[package]
name = "macp-runtime"
version = "0.4.0"
edition = "2021"
publish = false

[dependencies]
chrono = "0.4"
serde = { version = "1", features = ["derive"] }
serde_json = "1"
prost = "0.13"
tokio = { version = "1", features = ["sync", "macros", "rt-multi-thread", "time"] }
tonic = "0.12"
tracing = "0.1"
tracing-subscriber = { version = "0.3", features = ["env-filter"] }
thiserror = "1"
async-trait = "0.1"
uuid = { version = "1", features = ["v4"] }
jsonwebtoken = "9"
reqwest = { version = "0.12", default-features = false, features = ["json"] }
