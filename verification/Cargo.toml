[package]
name = "protobuf"
version = "0.1.0"
edition = "2021"
publish = false

[dependencies]
anyhow = "*"
thiserror = "*"
which = "*"
log = "*"
