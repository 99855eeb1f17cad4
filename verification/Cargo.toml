[package]
name = "app_updates"
version = "0.1.0"
edition = "2021"
publish = false

[dependencies]
regex = "=1.13.1"
version-compare = "=0.1.1"
walkdir = "=2.5.0"
downloader = "=0.2.8"
