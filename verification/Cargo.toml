[package]
name = "subdeploy"
version = "0.1.0"
edition = "2021"
publish = false

[dependencies]
anyhow = "1"
clap = { version = "4", features = ["derive"] }
flate2 = "1"
ignore = "0.4"
reqwest = { version = "0.12", default-features = false, features = ["blocking", "rustls-tls"] }
ssh2 = "0.9"
tar = "0.4"
tempfile = "3"
thiserror = "1"
