[package]
name = "weekly_report"
version = "0.1.0"
edition = "2021"
publish = false

[dependencies]
serde_json = "*"
chrono = "*"
serde = "*"
log = "*"
http_req = "*"
dotenv = "*"
tokio = { version = "*", features = ["macros", "rt", "time"] }
discord-flows = "*"
openai-flows = "*"
store-flows = "*"
flowsnet-platform-sdk = "*"
