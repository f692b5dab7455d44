[package]
name = "omni_up"
version = "0.1.0"
edition = "2021"
publish = false

[dependencies]
md-5 = "=0.10.6"
sha1 = "=0.10.7"
sha2 = "=0.10.9"
blake3 = { version = "=1.8.7", default-features = false, features = ["pure"] }
url = "=2.5.8"
serde = { version = "=1.0.229", features = ["derive"] }
serde_json = "=1.0.154"
normalize-path = "=0.2.2"
node-semver = "=2.2.0"
semver = "=1.0.28"
toml = "=0.8.23"
regex = "=1.13.1"
time = { version = "0.3", features = ["parsing"] }
