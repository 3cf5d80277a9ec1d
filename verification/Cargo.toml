[package]
name = "kaku"
version = "0.1.0"
edition = "2021"
publish = false

[dependencies]
anyhow = "1"
base64 = "0.22"
clap = { version = "4", features = ["derive"] }
getrandom = "0.3"
hostname = "0.4"
ignore = "0.4"
libc = "0.2"
log = "0.4"
regex = "1"
reqwest = { version = "0.12", default-features = false, features = ["blocking", "json", "rustls-tls"] }
serde_json = "1"
shlex = "1"
termwiz = { version = "0.23", default-features = false }
toml = "0.8"
unicode-segmentation = "1"
url = "2"
