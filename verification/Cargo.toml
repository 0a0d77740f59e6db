[package]
name = "dotstrap"
version = "0.1.0"
edition = "2021"
publish = false

[dependencies]
anyhow = "=1.0.104"
clap = { version = "=4.6.7", features = ["derive"] }
colored = "=2.2.0"
git2 = { version = "=0.21.0", default-features = false, features = ["cred"] }
pathbuf = "=1.0.0"
promptly = "=0.3.1"
serde = { version = "=1.0.229", features = ["derive"] }
serde_with = "=3.24.0"
serde_yaml = "=0.9.34"
shellexpand = "=3.1.2"
