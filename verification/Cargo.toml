[package]
name = "fluffy"
version = "0.1.0"
edition = "2021"
publish = false

[dependencies]
unicode-width = "0.1"
chrono = "0.4"
serde = { version = "1", features = ["derive"] }
serde_json = "1"
tokio = { version = "1", features = ["full"] }
ratatui = "0.26"
crossterm = "0.27"
hostname = "0.3"
sysinfo = "0.30"
reqwest = { version = "0.11", default-features = false, features = ["json", "rustls-tls"] }
