[package]
name = "kafka_logger"
version = "0.1.0"
edition = "2021"
publish = false

[dependencies]
log = "0.4"
rdkafka = { version = "0.36", default-features = false }
serde = { version = "1", features = ["derive"] }
serde_json = "1"
