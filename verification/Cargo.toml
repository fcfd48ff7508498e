[package]
name = "dispersion"
version = "0.1.0"
edition = "2021"
publish = false

[dependencies]
chrono = "=0.4.45"
clap = { version = "=4.6.7", features = ["derive"] }
eyre = "=0.6.14"
fern = "=0.7.1"
flate2 = "=1.1.10"
fs2 = "=0.4.3"
glob = "=0.3.4"
humantime = "=2.4.0"
indicatif = "=0.17.11"
log = "=0.4.34"
octocrab = "=0.47.1"
regex = "=1.13.1"
reqwest = { version = "=0.12.28", default-features = false, features = ["rustls-tls"] }
semver = "=1.0.28"
tar = "=0.4.46"
tempfile = "=3.27.0"
tokio = { version = "=1.54.1", features = ["macros", "rt-multi-thread", "process"] }
url = "=2.5.8"
zip = { version = "=9.1.0", default-features = false, features = ["deflate"] }
