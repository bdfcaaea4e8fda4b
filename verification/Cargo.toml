[package]
name = "riff"
version = "0.1.0"
edition = "2021"
publish = false

[dependencies]
base64ct = { version = "1", features = ["alloc"] }
sha1 = "0.10"
id3 = "1"
mp4ameta = "0.11"
symphonia = { version = "0.5", features = ["mp3", "aac", "isomp4"] }
walkdir = "2"
rusqlite = { version = "*", features = ["bundled"] }
notify = "4"
serde = { version = "1", features = ["derive"] }
serde_json = "1"
