[package]
name = "bili_remux"
version = "0.1.0"
edition = "2021"
publish = false

[dependencies]
mp4 = "0.14"
serde = { version = "1", features = ["derive"] }
serde_json = "1"
clap = { version = "4", features = ["derive"] }
rusqlite = { version = "*", features = ["bundled"] }
home = "0.5"
