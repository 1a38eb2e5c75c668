[package]
name = "zed_ios"
version = "0.1.0"
edition = "2021"
publish = false

[dependencies]
anyhow = "=1.0.104"
futures = "=0.3.34"
hex = "=0.4.3"
home = "=0.5.12"
libc = "=0.2.191"
log = "=0.4.35"
russh = { version = "=0.65.0", default-features = false, features = ["flate2", "ring", "rsa"] }
russh-sftp = "=3.0.1"
rustls = { version = "=0.23.46", default-features = false, features = ["ring", "std", "tls12"] }
rustls-platform-verifier = "=0.7.1"
semver = "=1.0.28"
serde = { version = "=1.0.229", features = ["derive"] }
serde_json = "=1.0.154"
sha2 = "=0.10.9"
tempfile = "3"
tokio = { version = "=1.54.1", features = ["io-util", "macros", "net", "rt-multi-thread", "sync", "time"] }
unicode-segmentation = "=1.13.3"
uuid = { version = "=1.29.0", features = ["v4", "v5"] }
