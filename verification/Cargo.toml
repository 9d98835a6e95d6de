[package]
name = "telecom_client"
version = "0.1.0"
edition = "2021"
publish = false

[dependencies]
anyhow = "=1.0.104"
chrono = "=0.4.45"
cpal = "=0.15.3"
md5 = "=0.7.0"
rand = "=0.8.8"
ringbuf = "=0.3.3"
serde_json = "=1.0.154"
tokio = { version = "=1.54.1", features = ["net", "rt", "sync", "time", "macros"] }
tonic = "0.12"
tracing = "=0.1.44"
