[package]
name = "rustyvxcan"
version = "0.1.0"
edition = "2021"
publish = false

[dependencies]
bytes = "1"
docker-api = "*"
interfaces = "*"
parking_lot = "0.12"
serde = { version = "1", features = ["derive"] }
serde_json = "1"
tokio = { version = "1", features = ["macros", "rt-multi-thread", "net"] }
tokio-stream = { version = "0.1", features = ["net"] }
truncrate = "*"
warp = { version = "0.3", default-features = false }
