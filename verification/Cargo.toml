[package]
name = "sopipe"
version = "0.1.0"
edition = "2021"
publish = false

[dependencies]
ring = "=0.17.14"
rust-crypto = "=0.2.36"
miniz_oxide = "=0.8.9"
rand = "=0.8.8"
tokio = { version = "=1.54.1", features = ["full"] }
h2 = "=0.4.20"
http = "=1.5.0"
tokio-native-tls = "=0.3.1"
native-tls = { version = "=0.2.18", features = ["alpn"] }
