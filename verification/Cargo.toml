[package]
name = "gpxjoin"
version = "0.1.0"
edition = "2021"
publish = false

[dependencies]
anyhow = "1"
quick-xml = "0.22"
