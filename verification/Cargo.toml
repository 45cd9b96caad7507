[package]
name = "rustree"
version = "0.1.0"
edition = "2021"
publish = false

[dependencies]
anyhow = "*"
chrono = "*"
clap = { version = "*", features = ["derive"] }
colored = "*"
dialoguer = "*"
dirs = "*"
git2 = "*"
indicatif = "*"
serde = { version = "*", features = ["derive"] }
serde_json = "*"
thiserror = "*"
