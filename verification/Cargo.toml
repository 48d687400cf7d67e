[package]
name = "hammerhead"
version = "0.1.0"
edition = "2021"
publish = false

[dependencies]
alsa = "0.9"
anyhow = "1"
async-trait = "0.1"
axum = { version = "0.7", features = ["ws"] }
csv = "1.3"
ctrlc = "3.4"
num-complex = "0.4"
rusqlite = { version = "0.31", features = ["bundled"] }
rustfft = "6"
serde = { version = "1", features = ["derive"] }
serde_json = "1"
soapysdr = "0.4"
thiserror = "1"
tokio = { version = "1", features = ["full"] }
tokio-serial = "5.4"
tower-http = { version = "0.5", features = ["fs", "trace"] }
tracing = "0.1"
tracing-subscriber = { version = "0.3", features = ["env-filter"] }
