[package]
name = "vglnt"
version = "0.1.0"
edition = "2021"
publish = false

[dependencies]
dashmap = "5.5"
uuid = { version = "1", features = ["v4", "serde"] }
serde = { version = "1", features = ["derive"] }
serde_json = "1"
actix-web = { version = "4", default-features = false, features = ["macros"] }
actix-multipart = "0.6"
futures = "0.3"
tokio = { version = "1", features = ["rt-multi-thread", "macros", "sync", "time"] }
tempfile = "3"
anyhow = "1"
thiserror = "1"
tracing = "0.1"
tracing-subscriber = "0.3"
dotenv = "0.15"
reqwest = { version = "0.11", default-features = false, features = ["json"] }
base64 = "0.21"
tch = "0.13"
