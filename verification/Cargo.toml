[package]
name = "musicbrainz-release-grabber"
version = "0.1.0"
edition = "2021"
publish = false

[dependencies]
anyhow = "=1.0.104"
clap = { version = "=4.6.7", features = ["derive"] }
crossterm = "=0.28.1"
dialoguer = "=0.11.0"
directories = "=5.0.1"
indicatif = "=0.17.11"
ratatui = "=0.29.0"
ratelimit = "=0.10.1"
reqwest = { version = "=0.12.28", default-features = false, features = ["blocking", "json", "rustls-tls"] }
serde = { version = "=1.0.229", features = ["derive"] }
serde_json = "=1.0.154"
time = { version = "=0.3.55", features = ["serde", "formatting", "parsing"] }
uuid = { version = "=1.29.0", features = ["serde"] }
yansi = "=1.0.1"
