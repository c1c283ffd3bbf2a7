[package]
name = "rbuild"
version = "0.1.0"
edition = "2021"
publish = false

[dependencies]
rustc-serialize = "0.3"
log = "0.4"
term = "0.7"
