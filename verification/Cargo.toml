[package]
name = "em_cockpit"
version = "0.1.0"
edition = "2021"
publish = false

[dependencies]
async-trait = "0.1"
base64 = "0.22"
chrono = "0.4"
keyring = "*"
log = "0.4"
lru = "*"
regex = "1"
reqwest = { version = "0.12", default-features = false, features = ["json"] }
rusqlite = "*"
serde = { version = "1", features = ["derive"] }
serde_json = "1"
thiserror = "1"
tokio = { version = "1", features = ["macros", "rt", "sync", "time"] }
urlencoding = "2"
