[package]
name = "event_forwarder"
version = "0.1.0"
edition = "2021"
publish = false

[dependencies]
rumqttc = "*"
serde_json = "*"
tokio = { version = "*", features = ["full"] }
anyhow = "*"
serde = { version = "*", features = ["derive"] }
log = "*"
redis = { version = "*", features = ["r2d2"] }
r2d2 = "*"
dotenvy = "*"
async-trait = "*"
flexi_logger = "*"
