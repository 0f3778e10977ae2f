[package]
name = "dji_log_viewer"
version = "0.1.0"
edition = "2021"
publish = false

[dependencies]
serde = { version = "*", features = ["derive"] }
serde_json = "*"
chrono = "*"
log = "*"
thiserror = "*"
reqwest = { version = "*", default-features = false, features = ["blocking", "json"] }
