[package]
name = "git_sync"
version = "0.1.0"
edition = "2021"
publish = false

[dependencies]
fancy-regex = "=0.20.0"
chrono = { version = "=0.4.45", features = ["serde"] }
clap = { version = "=4.6.7", features = ["derive", "env"] }
clap_complete = "=4.6.11"
clap_mangen = "=0.3.3"
serde = { version = "=1.0.229", features = ["derive"] }
serde_json = "=1.0.154"
serde_yaml_ng = "=0.10.0"
toml = "=1.1.8"
tokio = { version = "=1.54.1", features = ["full"] }
tokio-retry = "=0.3.2"
octocrab = "=0.47.1"
reqwest = { version = "=0.13.5", features = ["json"] }
thiserror = "=2.0.21"
dirs = "=7.0.0"
microxdg = "=0.2.0"
flate2 = "=1.1.10"
tar = "=0.4.46"
tempfile = "=3.27.0"
walkdir = "=2.5.0"
tabled = "=0.22.0"
console = "=0.16.6"
indicatif = "=0.18.6"
indexmap = { version = "=2.14.2", features = ["serde"] }
futures = "=0.3.34"
http = "=1.5.0"
http-body-util = "=0.1.5"
hyper = "=1.12.0"
iana-time-zone = "=0.1.65"
log = "=0.4.35"
