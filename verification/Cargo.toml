[package]
name = "reminders"
version = "0.1.0"
edition = "2021"
publish = false

[dependencies]
async-cron-scheduler = "=1.0.0"
chrono = "=0.4.45"
cron = "=0.11.0"
nanoid = "=0.4.0"
slotmap = "=1.1.1"
serde = { version = "=1.0.229", features = ["derive"] }
serde_json = "=1.0.154"
tokio = { version = "=1.54.1", features = ["time", "rt"] }
