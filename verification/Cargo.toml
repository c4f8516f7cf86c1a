[package]
name = "api_client"
version = "0.1.0"
edition = "2021"
publish = false

[dependencies]
http = "1"
url = "2"
serde_json = "1"
serde = { version = "1", features = ["derive"] }
chrono = "0.4"
uuid = { version = "1", features = ["v4"] }
reqwest = { version = "0.12", default-features = false, features = ["cookies", "json", "stream"] }
tokio = { version = "1", features = ["rt", "sync", "time", "net", "io-util", "macros"] }
tower = { version = "0.5", features = ["util"] }
futures = "0.3"
tracing = "0.1"
bytes = "1"
thiserror = "2"
