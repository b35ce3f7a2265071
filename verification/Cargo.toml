[package]
name = "demucs-ffi"
version = "0.1.0"
edition = "2021"
publish = false

[dependencies]
dirs = "6"
futures-channel = "0.3"
pollster = "0.4"
thiserror = "2"
uniffi = "0.29"
ureq = { version = "2", default-features = false, features = ["native-tls"] }
