[package]
name = "triggers_frontend"
version = "0.1.0"
edition = "2021"
publish = false

[dependencies]
rand = "=0.8.8"
regex = "=1.13.1"
tokio = { version = "=1.53.2", features = ["full"] }
actix-web = "=4.15.0"
serde = { version = "=1.0.229", features = ["derive"] }
serde_json = "=1.0.151"
json = "=0.12.4"
reqwest = { version = "=0.13.5", default-features = false }
lapin = "=4.12.0"
rumqttc = "=0.25.1"
futures-util = "=0.3.34"
