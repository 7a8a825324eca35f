[package]
name = "coraldesk"
version = "0.1.0"
edition = "2021"
publish = false

[dependencies]
anyhow = "1"
async-trait = "0.1"
chrono = { version = "0.4", default-features = false, features = ["clock", "std"] }
directories = "*"
serde = { version = "1", features = ["derive"] }
serde_json = "1"
tokio = { version = "1", default-features = false, features = ["process", "rt", "sync", "time"] }
tracing = "0.1"
uuid = { version = "1", features = ["v4"] }
which = "*"
