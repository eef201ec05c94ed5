[package]
name = "requestx"
version = "0.1.0"
edition = "2021"
publish = false

[dependencies]
base64 = "0.22"
md-5 = "0.10"
sha1 = "0.10"
sha2 = "0.10"
digest = "0.10"
hex = "0.4"
rand = "0.8"
urlencoding = "2"
percent-encoding = "2"
flate2 = "1"
brotli = "*"
zstd = "0.13"
fastrand = "2"
sonic-rs = "*"
hyper = "0.14"
url = "2"
serde = { version = "1", features = ["derive"] }
toml = "*"
pyo3 = "*"
reqwest = { version = "0.12", default-features = false, features = ["blocking", "cookies"] }
