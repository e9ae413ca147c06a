[package]
name = "proto-sync"
version = "0.1.0"
edition = "2021"
publish = false

[dependencies]
anyhow = "1"
auth-git2 = "*"
clap = { version = "4", features = ["derive"] }
color-print = "0.3"
git2 = { version = "*", default-features = false }
serde = { version = "1", features = ["derive"] }
sha256 = { version = "1", default-features = false }
thiserror = "1"
toml = "0.8"
tracing = "0.1"
tracing-subscriber = "0.3"
