[package]
name = "group_import"
version = "0.1.0"
edition = "2021"
publish = false

[dependencies]
ic-cdk = "0.10"
ic-cdk-timers = "0.4"
futures = "0.3"
tracing = "0.1"
serde = { version = "1", features = ["derive"] }
serde_bytes = "0.11"
rmp-serde = "1"
candid = "0.9"
