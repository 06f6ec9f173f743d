[package]
name = "ricer"
version = "0.1.0"
edition = "2021"
publish = false

[dependencies]
yaml-rust = "0.4"
anyhow = "1"
dirs = "4"
fs_extra = "1"
