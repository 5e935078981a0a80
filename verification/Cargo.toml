[package]
name = "revolver"
version = "0.1.0"
edition = "2021"
publish = false

[dependencies]
anyhow = "1"
axum = "0.8"
bytes = "1"
clap = { version = "4", features = ["derive"] }
lofty = "0.22"
r2d2 = "0.8"
r2d2_sqlite = "*"
rand = "0.8"
rayon = "1"
reqwest = { version = "0.12", default-features = false }
rusqlite = { version = "*", features = ["bundled", "functions"] }
serde = { version = "1", features = ["derive"] }
serde_json = "1"
socket2 = "0.5"
thiserror = "1"
tokio = { version = "1", features = ["full"] }
tokio-util = { version = "0.7", features = ["io"] }
toml = "0.8"
tower = { version = "0.5", features = ["limit", "util"] }
tracing = "0.1"
tracing-subscriber = { version = "0.3", features = ["env-filter"] }
unicode-normalization = "0.1"
uuid = { version = "1", features = ["v4"] }
walkdir = "2"
