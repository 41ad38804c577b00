[package]
name = "resolver"
version = "0.1.0"
edition = "2021"
publish = false

[dependencies]
semver = "1"
log = "0.4"
