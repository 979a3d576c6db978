[package]
name = "dahuavto"
version = "0.1.0"
edition = "2021"
publish = false

[dependencies]
anyhow = "1"
axum = "0.7"
base64 = "0.22"
gethostname = "0.5"
hex = "0.4"
log = "0.4"
md-5 = "0.10"
pnet = "0.35"
regex = "1"
rumqttc = "0.24"
serde = { version = "1", features = ["derive"] }
serde_json = "1"
simplelog = "0.12"
syslog = "6"
tokio = { version = "1", features = ["full"] }
ureq = { version = "2", features = ["json"] }
