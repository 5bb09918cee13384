[package]
name = "jivachat"
version = "0.1.0"
edition = "2021"
publish = false

[dependencies]
httparse = "1"
url = "2"
uuid = { version = "1", features = ["v4", "serde"] }
serde = { version = "1", features = ["derive"] }
serde_json = "1"
serde_with = "3"
anyhow = "1"
dotenv = "0.15"
tokio = { version = "1", features = ["full"] }
tokio-tungstenite = "0.21"
futures-util = { version = "0.3", features = ["sink"] }
reqwest = { version = "0.12", default-features = false, features = ["json", "stream", "rustls-tls"] }
aws-config = "1"
aws-sdk-dynamodb = "1"
