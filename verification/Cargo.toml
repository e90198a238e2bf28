[package]
name = "amax-updater-client"
version = "0.1.0"
edition = "2021"
publish = false

[dependencies]
anyhow = "1"
async-compat = "0.2"
console = "0.15"
env_logger = "0.10"
futures-util = "0.3"
indicatif = "0.17"
log = "0.4"
native-dialog = "0.6"
reqwest = { version = "0.11", default-features = false, features = ["blocking", "gzip", "rustls-tls", "stream"] }
smol = "1"
tempfile = "3"
version-compare = "0.1"
zip = { version = "0.6", default-features = false, features = ["deflate"] }
