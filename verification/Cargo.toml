[package]
name = "installer_webhook"
version = "0.1.0"
edition = "2021"
publish = false

[dependencies]
bytes = "1"
futures = "0.3"
log = "0.4"
log4rs = "1"
serde = { version = "1", features = ["derive"] }
serde_yaml = "0.9"
tokio = { version = "1", features = ["macros", "rt-multi-thread", "signal", "sync", "time"] }
warp = { version = "0.3", default-features = false, features = ["multipart"] }
