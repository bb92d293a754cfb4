[package]
name = "core_service"
version = "0.1.0"
edition = "2021"
publish = false

[dependencies]
regex = "=1.13.1"
unicode-normalization = "=0.1.26"
chardetng = "=0.1.17"
encoding_rs = "=0.8.42"
sha2 = "0.10"
zip = { version = "0.6", default-features = false }
thiserror = "=1.0.69"
anyhow = "=1.0.104"
