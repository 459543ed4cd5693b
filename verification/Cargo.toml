[package]
name = "connwatch"
version = "0.1.0"
edition = "2021"
publish = false

[dependencies]
anyhow = "1"
chrono = "0.4"
clap = { version = "4", features = ["derive"] }
crossterm = "0.28"
directories = "5"
globe = "*"
maxminddb = "0.24"
pcap = "2"
pnet_packet = "0.35"
ratatui = "0.29"
rusqlite = "0.32"
tokio = { version = "1", features = ["full"] }
tracing = "0.1"
tracing-subscriber = { version = "0.3", features = ["env-filter"] }
