[package]
name = "bilibili_tasks"
version = "0.1.0"
edition = "2021"
publish = false

[dependencies]
prost-types = { version = "0.13", default-features = false, features = ["std"] }
serde = { version = "1", features = ["derive"] }
serde_json = "1"
tokio = { version = "1", default-features = false, features = ["sync"] }
tonic = { version = "0.12", default-features = false }
uuid = { version = "1", features = ["v4"] }
