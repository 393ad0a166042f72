[package]
name = "tosho"
version = "0.1.0"
edition = "2021"
publish = false

[dependencies]
chrono = "=0.4.45"
curl = "0.4"
gumdrop = "=0.8.1"
postgres = "0.19"
quick-xml = "=0.22.0"
rusqlite = { version = "0.29", features = ["bundled", "chrono"] }
serde = { version = "=1.0.229", features = ["derive"] }
serde_json = "=1.0.154"
toml = "=0.5.11"
url = "=2.5.8"
wildmatch = "=1.1.0"
