[package]
name = "tn"
version = "0.1.0"
edition = "2021"
publish = false

[dependencies]
chrono = "0.4"
html2text = "0.13"
libc = "0.2"
quick-xml = "0.36"
redb = "2"
serde = { version = "1", features = ["derive"] }
serde_json = "1"
toml = "0.8"
ureq = "2"
