[package]
name = "rpass"
version = "0.1.0"
edition = "2021"
publish = false

[dependencies]
fernet = { version = "=0.2.2", default-features = false, features = ["rustcrypto", "fernet_danger_timestamps"] }
rand = "=0.8.8"
rusqlite = { version = "=0.40.2", features = ["bundled"] }
uuid = { version = "=1.27.0", features = ["v4"] }
clap = "=4.6.7"
cli-table = "=0.5.0"
