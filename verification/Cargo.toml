[package]
name = "chat_sync"
version = "0.1.0"
edition = "2021"
publish = false

[dependencies]
anyhow = "=1.0.104"
chrono = "=0.4.45"
dotenv = "=0.15.0"
grammers-client = "=0.7.0"
libsql = "=0.9.30"
log = "=0.4.34"
ollama-rs = "=0.3.6"
rusqlite = { version = "=0.40.2", features = ["bundled"] }
serde = { version = "=1.0.229", features = ["derive"] }
serde_json = "=1.0.151"
simple_logger = "=5.2.0"
textwrap = "=0.16.4"
tokio = { version = "=1.53.2", features = ["rt", "macros", "time"] }
