[package]
name = "rs1090"
version = "0.1.0"
edition = "2021"
publish = false

[dependencies]
adsb_deku = "0.7"
anyhow = "=1.0.104"
clap = { version = "=4.6.7", features = ["derive", "env"] }
rusqlite = { version = "=0.41.1", features = ["bundled"] }
serde = { version = "=1.0.229", features = ["derive"] }
serde_json = "=1.0.154"
thiserror = "=2.0.21"
tokio = { version = "=1.54.1", features = ["full"] }
tracing = "=0.1.44"
tracing-subscriber = { version = "=0.3.23", features = ["env-filter"] }
