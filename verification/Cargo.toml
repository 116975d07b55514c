[package]
name = "frp_client"
version = "0.1.0"
edition = "2021"
publish = false

[dependencies]
ring = "*"
aes = "0.8"
cfb-mode = "0.8"
cipher = "0.4"
md5 = "0.7"
rust-ini = "*"
clap = "3"
tokio = { version = "1", features = ["full"] }
tokio-util = { version = "0.7", features = ["compat"] }
futures = "0.3"
futures-util = "0.3"
yamux = "0.10"
chrono = "*"
anyhow = "*"
