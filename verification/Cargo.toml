[package]
name = "memebot"
version = "0.1.0"
edition = "2021"
publish = false

[dependencies]
image = "=0.22.5"
imageproc = "=0.19.2"
rusttype = "=0.8.3"
yaml-rust = "=0.4.5"
serenity = { version = "=0.8.9", default-features = false, features = ["builder", "cache", "client", "gateway", "model", "http", "utils", "rustls_backend"] }
log = "=0.4.34"
env_logger = "=0.7.1"
dotenv = "=0.15.0"
tempfile = "=3.27.0"
