[package]
name = "speech2prompt_desktop"
version = "0.1.0"
edition = "2021"
publish = false

[dependencies]
aes-gcm = "0.10"
anyhow = "1"
base64 = "0.22"
bluer = { version = "0.17", features = ["bluetoothd"] }
chrono = { version = "0.4", features = ["serde"] }
dirs = "5"
gethostname = "0.4"
hex = "0.4"
notify = "6"
parking_lot = "0.12"
pbkdf2 = "0.12"
rand = "0.8"
rusqlite = { version = "0.31", features = ["bundled"] }
serde = { version = "1", features = ["derive"] }
serde_json = "1"
sha2 = "0.10"
tokio = { version = "1", features = ["full"] }
toml = "0.8"
tracing = "0.1"
tracing-subscriber = "0.3"
uuid = "1"
x25519-dalek = "2"
