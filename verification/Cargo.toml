[package]
name = "routerman"
version = "0.1.0"
edition = "2021"
publish = false

[dependencies]
matchit = "0.7"
percent-encoding = "2"
serde = { version = "1", features = ["derive"] }
serde_json = "1"
thiserror = "1"
tower-service = "0.3"
futures-util = "0.3"
pin-project = "1"
