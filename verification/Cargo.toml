[package]
name = "hotsynth"
version = "0.1.0"
edition = "2021"
publish = false

[dependencies]
anyhow = "*"
inotify = "*"
jack = "*"
libloading = "*"
midir = "*"
spin = "*"
