[package]
name = "rss_watcher"
version = "0.1.0"
edition = "2021"
publish = false

[dependencies]
chrono = "=0.4.45"
html2md = "=0.2.17"
feed-rs = "=3.0.0"
log = "=0.4.34"
env_logger = "=0.11.11"
mysql = "=28.0.3"
reqwest = { version = "=0.13.5", default-features = false, features = ["query"] }
tokio = { version = "=1.53.2", default-features = false, features = ["rt-multi-thread", "time"] }
