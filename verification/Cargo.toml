[package]
name = "artale_timer"
version = "0.1.0"
edition = "2021"
publish = false

[dependencies]
uuid = { version = "1", features = ["v4"] }
serde = { version = "1", features = ["derive"] }
toml = "0.8"
tokio = { version = "1", default-features = false, features = ["sync", "time", "rt"] }
rodio = { version = "0.20", default-features = false }
