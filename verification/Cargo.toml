[package]
name = "jev-terminal-doctor"
version = "0.1.0"
edition = "2021"
publish = false

[dependencies]
regex = "1"
strip-ansi-escapes = "0.2"
diffy = "0.4"
anyhow = "1"
clap = { version = "4", features = ["derive"] }
crossterm = "0.28"
ratatui = "0.29"
git2 = { version = "0.19", default-features = false }
portable-pty = "0.8"
reqwest = { version = "0.12", default-features = false, features = ["json", "rustls-tls"] }
serde = { version = "1", features = ["derive"] }
serde_json = "1"
tokio = { version = "1", features = ["full"] }
async-trait = "0.1"
