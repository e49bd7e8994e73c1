[package]
name = "crawler"
version = "0.1.0"
edition = "2021"
publish = false

[dependencies]
url = "=2.5.8"
html5ever = "=0.39.0"
markup5ever_rcdom = "=0.39.0"
actix-web = "=4.15.0"
actix-rt = "=2.15.0"
awc = { version = "=3.8.2", features = ["openssl"] }
env_logger = "=0.11.11"
log = "=0.4.34"
serde = { version = "=1.0.229", features = ["derive"] }
futures = "=0.3.34"
openssl = "=0.10.81"
