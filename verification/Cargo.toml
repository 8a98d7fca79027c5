[package]
name = "playlist_studio"
version = "0.1.0"
edition = "2021"
publish = false

[dependencies]
async-trait = "=0.1.92"
base64 = "=0.22.1"
chrono = { version = "=0.4.45", default-features = false, features = ["std", "now", "clock"] }
csv = "=1.4.0"
dirs = "=6.0.0"
eframe = { version = "=0.35.0", default-features = false, features = ["glow", "x11", "default_fonts"] }
egui = { version = "=0.35.0", default-features = false, features = ["default_fonts"] }
open = "=5.4.5"
rand = "=0.9.5"
rand_chacha = "=0.9.0"
reqwest = { version = "=0.12.28", default-features = false, features = ["json", "rustls-tls"] }
serde = { version = "=1.0.229", features = ["derive"] }
serde_json = "=1.0.154"
sha2 = "=0.10.9"
tokio = { version = "=1.54.1", features = ["rt-multi-thread", "macros", "time", "net", "io-util", "process", "sync"] }
toml = "=0.9.12"
tracing = "=0.1.44"
url = "=2.5.8"
