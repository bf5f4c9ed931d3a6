[package]
name = "angular_migrator"
version = "0.1.0"
edition = "2021"
publish = false

[dependencies]
anyhow = "1"
clap = { version = "4", features = ["derive"] }
glob = "0.3"
regex = "1"
semver = "1"
serde_json = { version = "1", features = ["preserve_order"] }
ureq = { version = "2", features = ["json"] }
walkdir = "2"
