[package]
name = "bendsql"
version = "0.1.0"
edition = "2021"
publish = false

[dependencies]
sqlformat = "=0.5.0"
url = "=2.5.8"
serde_json = "=1.0.154"
csv = "=1.4.0"
chrono = "=0.4.45"
serde = { version = "=1.0.229", features = ["derive"] }
anyhow = "=1.0.104"
rustyline = "=19.0.0"
