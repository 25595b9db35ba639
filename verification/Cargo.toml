[package]
name = "buildcache"
version = "0.1.0"
edition = "2021"
publish = false

[dependencies]
ureq = { version = "=2.12.1", default-features = false }
flate2 = "=1.1.10"
tar = "=0.4.46"
zip = { version = "=4.6.1", default-features = false, features = ["deflate"] }
tempfile = "=3.27.0"
serde = { version = "=1.0.229", features = ["derive"] }
libcnb = "=0.26.1"
