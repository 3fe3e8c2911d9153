[package]
name = "douyin_creator_tools"
version = "0.1.0"
edition = "2021"
publish = false

[dependencies]
chrono = { version = "0.4", features = ["serde"] }
serde = { version = "1", features = ["derive"] }
serde_json = "1"
thiserror = "1"
reqwest = { version = "0.12", default-features = false, features = ["json", "rustls-tls"] }
image = { version = "0.25", default-features = false, features = ["jpeg"] }
font8x8 = "0.3"
ureq = { version = "2", default-features = false }
uuid = { version = "1", features = ["v4"] }
once_cell = "1"
parking_lot = "0.12"
futures-util = "0.3"
tracing = "0.1"
