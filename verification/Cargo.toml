[package]
name = "gitbutler"
version = "0.1.0"
edition = "2021"
publish = false

[dependencies]
anyhow = "1"
git2 = { version = "0.17", default-features = false }
log = "0.4"
serde = { version = "1", features = ["derive"] }
walkdir = "2"
